//! Identifier helpers: fresh unique ids, timestamps, channel names, and the
//! reasoning-item id split.

use vstd::prelude::*;
use crate::chars::{chars_of, concat_str, string_of};

verus! {

/// Relies on uuid::Uuid::new_v4 together with its Display form: a freshly
/// drawn random identifier, always rendered as 36 hyphenated characters.
/// Nothing can be promised about which identifier comes back.
#[verifier::external_body]
pub(crate) fn new_unique_id() -> (r: String)
    ensures
        r@.len() == 36,
{
    uuid::Uuid::new_v4().to_string()
}

/// Relies on std::time::SystemTime::now and duration_since(UNIX_EPOCH):
/// the current time in whole seconds since the Unix epoch. A clock reading
/// before the epoch, or one whose seconds do not fit an i64, gives zero, so
/// the result is never negative.
#[verifier::external_body]
pub fn now_unix_seconds() -> (r: i64)
    ensures
        0 <= r,
{
    match std::time::SystemTime::now().duration_since(std::time::UNIX_EPOCH) {
        Ok(d) => i64::try_from(d.as_secs()).unwrap_or(0),
        Err(_) => 0,
    }
}

/// The channel name a worker's messages are emitted on.
pub fn worker_channel(worker_id: &String) -> (r: String)
    ensures
        r@ == "codex_desktop:worker:"@ + worker_id@ + ":for-view"@,
{
    let mut r = String::new();
    r.append("codex_desktop:worker:");
    r.append(worker_id.as_str());
    r.append(":for-view");
    assert(r@ =~= "codex_desktop:worker:"@ + worker_id@ + ":for-view"@);
    r
}

/// Whether some element of `vs` has the characters `x`.
pub open spec fn contains_string(vs: Seq<String>, x: Seq<char>) -> bool {
    exists|i: int| 0 <= i < vs.len() && vs[i]@ == x
}

/// Appends `candidate` unless an equal string is already present.
pub fn push_unique(values: &mut Vec<String>, candidate: String)
    ensures
        contains_string(old(values)@, candidate@) ==> final(values)@ == old(values)@,
        !contains_string(old(values)@, candidate@) ==> final(values)@ == old(values)@.push(
            candidate,
        ),
{
    let n = values.len();
    for i in 0..n
        invariant
            n == values@.len(),
            forall|j: int| 0 <= j < i ==> values@[j]@ != candidate@,
    {
        if values[i] == candidate {
            return;
        }
    }
    values.push(candidate);
}

/// The separator that splits a reasoning item id from its summary index.
pub open spec fn summary_sep() -> Seq<char> {
    seq!['_', 's', 'u', 'm', 'm', 'a', 'r', 'y', '_']
}

/// Whether the separator occurs in `s` starting at position `i`.
pub open spec fn sep_at(s: Seq<char>, i: int) -> bool {
    0 <= i && i + 9 <= s.len() && s.subrange(i, i + 9) == summary_sep()
}

/// Whether `i` is the rightmost separator position in `s`.
pub open spec fn last_sep_at(s: Seq<char>, i: int) -> bool {
    sep_at(s, i) && forall|j: int| i < j ==> !sep_at(s, j)
}

fn sep_matches_at(v: &Vec<char>, i: usize) -> (r: bool)
    requires
        i + 9 <= v@.len(),
    ensures
        r == sep_at(v@, i as int),
{
    let n = v.len();
    let r = v[i] == '_' && v[i + 1] == 's' && v[i + 2] == 'u' && v[i + 3] == 'm' && v[i + 4] == 'm'
        && v[i + 5] == 'a' && v[i + 6] == 'r' && v[i + 7] == 'y' && v[i + 8] == '_';
    proof {
        if r {
            assert(v@.subrange(i as int, i + 9 as int) =~= summary_sep());
        } else {
            assert(v@.subrange(i as int, i + 9 as int) != summary_sep()) by {
                if v@.subrange(i as int, i + 9 as int) == summary_sep() {
                    assert(forall|k: int|
                        0 <= k < 9 ==> v@.subrange(i as int, i + 9 as int)[k] == summary_sep()[k]);
                }
            }
        }
    }
    r
}

/// Splits a raw reasoning item id on the rightmost `_summary_` separator.
/// Returns the base id together with the digits after the separator, or
/// `None` when no separator occurs.
pub fn split_summary_id(raw: &String) -> (r: Option<(String, String)>)
    ensures
        match r {
            Some(parts) => exists|k: int|
                last_sep_at(raw@, k) && parts.0@ == raw@.subrange(0, k) && parts.1@
                    == raw@.subrange(k + 9, raw@.len() as int),
            None => forall|i: int| !sep_at(raw@, i),
        },
{
    let v = chars_of(raw.as_str());
    let n = v.len();
    if n < 9 {
        assert(forall|i: int| !sep_at(raw@, i));
        return None;
    }
    let mut k = n - 9;
    loop
        invariant
            v@ == raw@,
            n == v@.len(),
            9 <= n,
            k <= n - 9,
            forall|j: int| k < j ==> !sep_at(raw@, j),
        decreases k + 1,
    {
        if sep_matches_at(&v, k) {
            let mut base: Vec<char> = Vec::new();
            for i in 0..k
                invariant
                    v@ == raw@,
                    k <= n - 9,
                    n == v@.len(),
                    base@ =~= raw@.subrange(0, i as int),
            {
                base.push(v[i]);
                assert(base@ =~= raw@.subrange(0, i + 1 as int));
            }
            let mut rest: Vec<char> = Vec::new();
            for i in (k + 9)..n
                invariant
                    v@ == raw@,
                    k + 9 <= n,
                    n == v@.len(),
                    rest@ =~= raw@.subrange(k + 9 as int, i as int),
            {
                rest.push(v[i]);
                assert(rest@ =~= raw@.subrange(k + 9 as int, i + 1 as int));
            }
            assert(base@ =~= raw@.subrange(0, k as int));
            assert(rest@ =~= raw@.subrange(k + 9 as int, n as int));
            assert(last_sep_at(raw@, k as int));
            return Some((string_of(&base), string_of(&rest)));
        }
        if k == 0 {
            assert(forall|i: int| !sep_at(raw@, i)) by {
                assert(forall|j: int| 0 < j ==> !sep_at(raw@, j));
                assert(!sep_at(raw@, 0));
                assert(forall|j: int| j < 0 ==> !sep_at(raw@, j));
            }
            return None;
        }
        k = k - 1;
    }
}

} // verus!
