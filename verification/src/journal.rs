//! Maps kept as journals: pairs of key and value in the order in which they
//! were written, where the last pair of a key counts.

use vstd::prelude::*;

verus! {

/// What the last pair with key `k` holds, if `s` has such a pair.
pub open spec fn latest<K, V>(s: Seq<(K, V)>, k: K) -> Option<V>
    decreases s.len(),
{
    if s.len() == 0 {
        None
    } else if s.last().0 == k {
        Some(s.last().1)
    } else {
        latest(s.drop_last(), k)
    }
}

/// A pair added at the end is the latest for its key and changes no other.
pub proof fn lemma_latest_push<K, V>(s: Seq<(K, V)>, pair: (K, V), k: K)
    ensures
        latest(s.push(pair), k) == if pair.0 == k {
            Some(pair.1)
        } else {
            latest(s, k)
        },
{
    assert(s.push(pair).drop_last() =~= s);
}

/// In two runs of pairs, the second decides where it has the key.
pub proof fn lemma_latest_concat<K, V>(a: Seq<(K, V)>, b: Seq<(K, V)>, k: K)
    ensures
        latest(a + b, k) == match latest(b, k) {
            Some(v) => Some(v),
            None => latest(a, k),
        },
    decreases b.len(),
{
    if b.len() == 0 {
        assert(a + b =~= a);
    } else {
        assert((a + b).drop_last() =~= a + b.drop_last());
        assert((a + b).last() == b.last());
        lemma_latest_concat(a, b.drop_last(), k);
    }
}

/// Pairs at the end that do not have the key can be left out.
pub proof fn lemma_latest_ignores_tail<K, V>(s: Seq<(K, V)>, n: int, k: K)
    requires
        0 <= n <= s.len(),
        forall|j: int| n <= j < s.len() ==> (#[trigger] s[j]).0 != k,
    ensures
        latest(s, k) == latest(s.take(n), k),
    decreases s.len() - n,
{
    if n == s.len() {
        assert(s.take(n) =~= s);
    } else {
        assert(s.last() == s[s.len() - 1]);
        assert(s.drop_last().take(n) =~= s.take(n));
        lemma_latest_ignores_tail(s.drop_last(), n, k);
    }
}

/// A key with a latest pair is the key of some pair, and that pair holds
/// what is latest.
pub proof fn lemma_latest_is_some_pair<K, V>(s: Seq<(K, V)>, k: K) -> (i: int)
    requires
        latest(s, k).is_some(),
    ensures
        0 <= i < s.len(),
        s[i].0 == k,
        latest(s, k) == Some(s[i].1),
    decreases s.len(),
{
    if s.last().0 == k {
        s.len() - 1
    } else {
        lemma_latest_is_some_pair(s.drop_last(), k)
    }
}

/// The map that a journal stands for: every key with what its last pair
/// holds.
pub open spec fn journal_map<K, V>(s: Seq<(K, V)>) -> Map<K, V> {
    Map::new(|k: K| latest(s, k).is_some(), |k: K| latest(s, k).unwrap())
}

/// The journal without pairs stands for the empty map.
pub proof fn lemma_journal_map_empty<K, V>()
    ensures
        journal_map(Seq::<(K, V)>::empty()) == Map::<K, V>::empty(),
{
    assert(journal_map(Seq::<(K, V)>::empty()) =~= Map::<K, V>::empty());
}

/// A pair added at the end is an insertion into the map.
pub proof fn lemma_journal_map_push<K, V>(s: Seq<(K, V)>, k: K, v: V)
    ensures
        journal_map(s.push((k, v))) == journal_map(s).insert(k, v),
{
    let left = journal_map(s.push((k, v)));
    let right = journal_map(s).insert(k, v);
    assert forall|x: K| #[trigger] left.dom().contains(x) == right.dom().contains(x) by {
        lemma_latest_push(s, (k, v), x);
    }
    assert forall|x: K| left.dom().contains(x) implies #[trigger] left[x] == right[x] by {
        lemma_latest_push(s, (k, v), x);
    }
    assert(left =~= right);
}

} // verus!
