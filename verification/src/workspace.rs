//! Workspace-root bookkeeping: the known roots, their display labels, and
//! the preferred working directory.

use vstd::prelude::*;
use crate::chars::{chars_of, string_of, strip_trailing_chars, strip_trailing_spec, trim_chars, trim_spec};
use crate::ids::{contains_string, push_unique};
use crate::tomlcfg::{lemma_suffix_after_last, suffix_after_last};

verus! {

/// The set of workspace roots the UI may pick from, with display labels and
/// the currently active subset.
pub struct WorkspaceState {
    pub roots: Vec<String>,
    pub labels: Vec<(String, String)>,
    pub active_roots: Vec<String>,
}

/// The display label derived from a root path: its trimmed last `/`-separated
/// component, or the root itself when that component is empty or a `..`.
pub open spec fn label_spec(root: Seq<char>) -> Seq<char> {
    let stripped = strip_trailing_spec(root, '/');
    let name = trim_spec(suffix_after_last(stripped, '/'));
    if name.len() > 0 && name != ".."@ {
        name
    } else {
        root
    }
}

/// Derives the display label for a workspace root.
pub fn derive_workspace_label(root: &str) -> (r: String)
    ensures
        r@ == label_spec(root@),
{
    let v = chars_of(root);
    let stripped = strip_trailing_chars(&v, '/');
    let n = stripped.len();
    let mut k: usize = n;
    while k > 0 && stripped[k - 1] != '/'
        invariant
            n == stripped@.len(),
            k <= n,
            forall|j: int| k <= j < n ==> stripped@[j] != '/',
        decreases k,
    {
        k = k - 1;
    }
    proof {
        lemma_suffix_after_last(stripped@, '/', k as int);
    }
    let name = trim_chars(&crate::chars::sub_chars(&stripped, k, n));
    let name_s = string_of(&name);
    if name.len() > 0 && name_s != String::from_str("..") {
        name_s
    } else {
        string_of(&v)
    }
}

/// The index of the label entry for `key`, if present.
pub open spec fn label_index_spec(labels: Seq<(String, String)>, key: Seq<char>) -> Option<int>
    decreases labels.len(),
{
    if labels.len() == 0 {
        None
    } else if labels[0].0@ == key {
        Some(0)
    } else {
        match label_index_spec(labels.drop_first(), key) {
            Some(i) => Some(i + 1),
            None => None,
        }
    }
}

proof fn lemma_label_index(labels: Seq<(String, String)>, key: Seq<char>, i: int)
    requires
        0 <= i <= labels.len(),
        forall|j: int| 0 <= j < i ==> labels[j].0@ != key,
    ensures
        i == labels.len() ==> label_index_spec(labels, key) is None,
        i < labels.len() && labels[i].0@ == key ==> label_index_spec(labels, key) == Some(i),
    decreases i + 1,
{
    if labels.len() > 0 && i > 0 {
        lemma_label_index(labels.drop_first(), key, i - 1);
    }
}

/// Registers a root: appends it to the known roots unless present, assigns
/// it a derived label on first sight, and returns the label.
pub fn upsert_workspace_root(workspace: &mut WorkspaceState, root: String) -> (r: String)
    ensures
        ({
            let before = *old(workspace);
            let after = *final(workspace);
            &&& (contains_string(before.roots@, root@) ==> after.roots@ == before.roots@)
            &&& (!contains_string(before.roots@, root@) ==> after.roots@ == before.roots@.push(
                root,
            ))
            &&& after.active_roots@ == before.active_roots@
            &&& (match label_index_spec(before.labels@, root@) {
                Some(i) => after.labels@ == before.labels@ && r@ == before.labels@[i].1@,
                None => {
                    &&& r@ == label_spec(root@)
                    &&& after.labels@.len() == before.labels@.len() + 1
                    &&& after.labels@.last().0@ == root@
                    &&& after.labels@.last().1@ == label_spec(root@)
                    &&& after.labels@.subrange(0, before.labels@.len() as int) == before.labels@
                },
            })
        }),
{
    push_unique(&mut workspace.roots, root.clone());
    let n = workspace.labels.len();
    for i in 0..n
        invariant
            n == workspace.labels@.len(),
            workspace.labels@ == old(workspace).labels@,
            workspace.active_roots@ == old(workspace).active_roots@,
            contains_string(old(workspace).roots@, root@) ==> workspace.roots@ == old(
                workspace,
            ).roots@,
            !contains_string(old(workspace).roots@, root@) ==> workspace.roots@ == old(
                workspace,
            ).roots@.push(root),
            forall|j: int| 0 <= j < i ==> workspace.labels@[j].0@ != root@,
    {
        if workspace.labels[i].0 == root {
            proof {
                lemma_label_index(workspace.labels@, root@, i as int);
            }
            return workspace.labels[i].1.clone();
        }
    }
    proof {
        lemma_label_index(workspace.labels@, root@, n as int);
    }
    let label = derive_workspace_label(root.as_str());
    workspace.labels.push((root, label.clone()));
    assert(workspace.labels@.subrange(0, old(workspace).labels@.len() as int) =~= old(
        workspace,
    ).labels@);
    label
}

/// The working directory preferred for new work: the first active root, then
/// the first known root, then the filesystem root.
pub fn preferred_workspace_cwd(workspace: &WorkspaceState) -> (r: String)
    ensures
        workspace.active_roots@.len() > 0 ==> r@ == workspace.active_roots@[0]@,
        workspace.active_roots@.len() == 0 && workspace.roots@.len() > 0 ==> r@
            == workspace.roots@[0]@,
        workspace.active_roots@.len() == 0 && workspace.roots@.len() == 0 ==> r@ == "/"@,
{
    if workspace.active_roots.len() > 0 {
        return workspace.active_roots[0].clone();
    }
    if workspace.roots.len() > 0 {
        return workspace.roots[0].clone();
    }
    String::from_str("/")
}

} // verus!
