//! String-keyed association vectors, viewed as `Map<Seq<char>, _>` in
//! specifications. All shared runtime maps are built on these.

use vstd::prelude::*;

verus! {

/// The map an association vector denotes; later entries shadow earlier ones,
/// though the runtime keeps keys unique.
pub open spec fn assoc_dview<V: DeepView>(s: Seq<(String, V)>) -> Map<Seq<char>, V::V>
    decreases s.len(),
{
    if s.len() == 0 {
        Map::empty()
    } else {
        assoc_dview(s.drop_last()).insert(s.last().0@, s.last().1.deep_view())
    }
}

/// No key occurs twice.
pub open spec fn assoc_unique<V>(s: Seq<(String, V)>) -> bool {
    forall|i: int, j: int| 0 <= i < j < s.len() ==> s[i].0@ != s[j].0@
}

/// Whether some entry has the key `k`.
pub open spec fn assoc_has_key<V>(s: Seq<(String, V)>, k: Seq<char>) -> bool {
    exists|i: int| 0 <= i < s.len() && s[i].0@ == k
}

pub proof fn lemma_assoc_contains<V: DeepView>(s: Seq<(String, V)>, k: Seq<char>)
    ensures
        assoc_dview(s).contains_key(k) <==> assoc_has_key(s, k),
    decreases s.len(),
{
    if s.len() > 0 {
        lemma_assoc_contains(s.drop_last(), k);
        if s.last().0@ == k {
            assert(s[s.len() - 1].0@ == k);
        } else {
            if assoc_has_key(s.drop_last(), k) {
                let i = choose|i: int| 0 <= i < s.len() - 1 && s.drop_last()[i].0@ == k;
                assert(s[i].0@ == k);
            }
            if assoc_has_key(s, k) {
                let i = choose|i: int| 0 <= i < s.len() && s[i].0@ == k;
                assert(i < s.len() - 1);
                assert(s.drop_last()[i].0@ == k);
            }
        }
    }
}

pub proof fn lemma_assoc_get<V: DeepView>(s: Seq<(String, V)>, i: int)
    requires
        assoc_unique(s),
        0 <= i < s.len(),
    ensures
        assoc_dview(s).contains_key(s[i].0@),
        assoc_dview(s)[s[i].0@] == s[i].1.deep_view(),
    decreases s.len(),
{
    if i < s.len() - 1 {
        assert(assoc_unique(s.drop_last()));
        lemma_assoc_get(s.drop_last(), i);
        assert(s.drop_last()[i] == s[i]);
        assert(s.last().0@ != s[i].0@);
    }
}

pub proof fn lemma_assoc_remove<V: DeepView>(s: Seq<(String, V)>, i: int)
    requires
        assoc_unique(s),
        0 <= i < s.len(),
    ensures
        assoc_unique(s.remove(i)),
        assoc_dview(s.remove(i)) =~= assoc_dview(s).remove(s[i].0@),
    decreases s.len(),
{
    let k = s[i].0@;
    assert forall|a: int, b: int| 0 <= a < b < s.remove(i).len() implies s.remove(i)[a].0@
        != s.remove(i)[b].0@ by {
        if a < i {
            if b < i {
                assert(s.remove(i)[a] == s[a] && s.remove(i)[b] == s[b]);
            } else {
                assert(s.remove(i)[a] == s[a] && s.remove(i)[b] == s[b + 1]);
            }
        } else {
            assert(s.remove(i)[a] == s[a + 1] && s.remove(i)[b] == s[b + 1]);
        }
    }
    if i == s.len() - 1 {
        assert(s.remove(i) =~= s.drop_last());
        lemma_assoc_contains::<V>(s.drop_last(), k);
        assert(!assoc_has_key(s.drop_last(), k)) by {
            if assoc_has_key(s.drop_last(), k) {
                let j = choose|j: int| 0 <= j < s.len() - 1 && s.drop_last()[j].0@ == k;
                assert(s[j].0@ == s[i].0@);
            }
        }
        assert(assoc_dview(s.remove(i)) =~= assoc_dview(s).remove(k));
    } else {
        assert(assoc_unique(s.drop_last()));
        lemma_assoc_remove(s.drop_last(), i);
        assert(s.remove(i).drop_last() =~= s.drop_last().remove(i));
        assert(s.remove(i).last() == s.last());
        assert(s.last().0@ != k);
        assert(assoc_dview(s.remove(i)) =~= assoc_dview(s).remove(k));
    }
}

pub proof fn lemma_assoc_push<V: DeepView>(s: Seq<(String, V)>, key: String, v: V)
    ensures
        assoc_dview(s.push((key, v))) =~= assoc_dview(s).insert(key@, v.deep_view()),
        assoc_unique(s) && !assoc_has_key(s, key@) ==> assoc_unique(s.push((key, v))),
{
    assert(s.push((key, v)).drop_last() =~= s);
    assert(s.push((key, v)).last() == (key, v));
    if assoc_unique(s) && !assoc_has_key(s, key@) {
        assert forall|a: int, b: int| 0 <= a < b < s.len() + 1 implies s.push((key, v))[a].0@
            != s.push((key, v))[b].0@ by {
            if b < s.len() {
                assert(s.push((key, v))[a] == s[a] && s.push((key, v))[b] == s[b]);
            } else {
                assert(s.push((key, v))[b] == (key, v));
                assert(s.push((key, v))[a] == s[a]);
            }
        }
    }
}

/// Finds an entry by key.
pub fn assoc_find<V: DeepView>(s: &Vec<(String, V)>, key: &String) -> (r: Option<usize>)
    ensures
        match r {
            Some(i) => i < s@.len() && s@[i as int].0@ == key@,
            None => !assoc_has_key(s@, key@),
        },
{
    let n = s.len();
    for i in 0..n
        invariant
            n == s@.len(),
            forall|j: int| 0 <= j < i ==> s@[j].0@ != key@,
    {
        let hit = s[i].0 == *key;
        if hit {
            return Some(i);
        }
    }
    None
}

/// Whether a vector of strings contains `x`.
pub fn vec_contains_str(v: &Vec<String>, x: &String) -> (r: bool)
    ensures
        r == v.deep_view().contains(x@),
{
    let n = v.len();
    for i in 0..n
        invariant
            n == v@.len(),
            forall|j: int| 0 <= j < i ==> v.deep_view()[j] != x@,
    {
        let hit = v[i] == *x;
        if hit {
            assert(v.deep_view()[i as int] == x@);
            return true;
        }
    }
    assert(!v.deep_view().contains(x@));
    false
}

} // verus!
