//! Association lists: sequences of key/value pairs read as maps, later pairs
//! overriding earlier ones.
use vstd::prelude::*;

verus! {

/// The map that the pairs of `s` make, a later pair overriding an earlier one.
pub open spec fn assoc<K, V>(s: Seq<(K, V)>) -> Map<K, V>
    decreases s.len(),
{
    if s.len() == 0 {
        Map::empty()
    } else {
        assoc(s.drop_last()).insert(s.last().0, s.last().1)
    }
}

/// Pairs after position `i` that do not bind `k` leave its binding to the pairs before `i`.
pub proof fn lemma_assoc_skip_tail<K, V>(s: Seq<(K, V)>, k: K, i: int)
    requires
        0 <= i <= s.len(),
        forall|j: int| i <= j < s.len() ==> (#[trigger] s[j]).0 != k,
    ensures
        assoc(s).contains_key(k) == assoc(s.take(i)).contains_key(k),
        assoc(s).contains_key(k) ==> assoc(s)[k] == assoc(s.take(i))[k],
    decreases s.len() - i,
{
    if i < s.len() {
        assert(s.drop_last().take(i) =~= s.take(i));
        assert(s.last() == s[s.len() - 1]);
        lemma_assoc_skip_tail(s.drop_last(), k, i);
    } else {
        assert(s.take(i) =~= s);
    }
}

/// The binding of `k` is the last pair for `k`, found at `i - 1`.
pub proof fn lemma_assoc_found<K, V>(s: Seq<(K, V)>, k: K, i: int)
    requires
        0 < i <= s.len(),
        s[i - 1].0 == k,
        forall|j: int| i <= j < s.len() ==> (#[trigger] s[j]).0 != k,
    ensures
        assoc(s).contains_key(k),
        assoc(s)[k] == s[i - 1].1,
{
    lemma_assoc_skip_tail(s, k, i);
    assert(s.take(i).drop_last() =~= s.take(i - 1));
    assert(s.take(i).last() == s[i - 1]);
}

/// A key that no pair binds is not in the map.
pub proof fn lemma_assoc_absent<K, V>(s: Seq<(K, V)>, k: K)
    requires
        forall|j: int| 0 <= j < s.len() ==> (#[trigger] s[j]).0 != k,
    ensures
        !assoc(s).contains_key(k),
{
    lemma_assoc_skip_tail(s, k, 0);
    assert(s.take(0) =~= Seq::<(K, V)>::empty());
}

/// Appending a pair binds its key to its value.
pub proof fn lemma_assoc_push<K, V>(s: Seq<(K, V)>, k: K, v: V)
    ensures
        assoc(s.push((k, v))) == assoc(s).insert(k, v),
{
    assert(s.push((k, v)).drop_last() =~= s);
}

} // verus!
