//! Lists of pairs read as mappings.

use vstd::prelude::*;

verus! {

/// Whether no key occurs at two places of `s`.
pub open spec fn distinct_keys<K, V>(s: Seq<(K, V)>) -> bool {
    forall|i: int, j: int| 0 <= i < j < s.len() ==> s[i].0 != s[j].0
}

/// The mapping that a list of pairs stands for: each key with its value,
/// a later pair taking the place of an earlier one with the same key.
pub open spec fn pairs_map<K, V>(s: Seq<(K, V)>) -> Map<K, V>
    decreases s.len(),
{
    if s.len() == 0 {
        Map::empty()
    } else {
        pairs_map(s.drop_last()).insert(s.last().0, s.last().1)
    }
}

/// The value that `key` has in a list of pairs, if it has one.
pub open spec fn lookup<K, V>(s: Seq<(K, V)>, key: K) -> Option<V> {
    if pairs_map(s).contains_key(key) {
        Some(pairs_map(s)[key])
    } else {
        None
    }
}

/// A key is in the mapping exactly when some pair carries it, and the
/// mapping is finite.
pub proof fn lemma_pairs_map_keys<K, V>(s: Seq<(K, V)>, key: K)
    ensures
        pairs_map(s).contains_key(key) <==> exists|i: int| 0 <= i < s.len() && (#[trigger] s[i]).0 == key,
        pairs_map(s).dom().finite(),
    decreases s.len(),
{
    if s.len() > 0 {
        let front = s.drop_last();
        lemma_pairs_map_keys(front, key);
        if pairs_map(s).contains_key(key) {
            if s.last().0 == key {
                assert(s[s.len() - 1].0 == key);
            } else {
                let i = choose|i: int| 0 <= i < front.len() && (#[trigger] front[i]).0 == key;
                assert(s[i].0 == key);
            }
        }
        if exists|i: int| 0 <= i < s.len() && (#[trigger] s[i]).0 == key {
            let i = choose|i: int| 0 <= i < s.len() && (#[trigger] s[i]).0 == key;
            if i < s.len() - 1 {
                assert(front[i].0 == key);
            }
        }
    }
}

/// A key maps to the value of the last pair that carries it.
pub proof fn lemma_pairs_map_last<K, V>(s: Seq<(K, V)>, i: int)
    requires
        0 <= i < s.len(),
        forall|j: int| i < j < s.len() ==> (#[trigger] s[j]).0 != s[i].0,
    ensures
        pairs_map(s).contains_key(s[i].0),
        pairs_map(s)[s[i].0] == s[i].1,
    decreases s.len(),
{
    if i < s.len() - 1 {
        let front = s.drop_last();
        assert forall|j: int| i < j < front.len() implies (#[trigger] front[j]).0 != front[i].0 by {
            assert(s[j].0 != s[i].0);
        }
        lemma_pairs_map_last(front, i);
        assert(s[s.len() - 1].0 != s[i].0);
    }
}

/// Where the keys are distinct, each pair's key maps to that pair's value.
pub proof fn lemma_pairs_map_value<K, V>(s: Seq<(K, V)>, i: int)
    requires
        distinct_keys(s),
        0 <= i < s.len(),
    ensures
        lookup(s, s[i].0) == Some(s[i].1),
{
    lemma_pairs_map_last(s, i);
}

/// Where the keys are distinct, the mapping has as many keys as the list
/// has pairs.
pub proof fn lemma_pairs_map_len<K, V>(s: Seq<(K, V)>)
    requires
        distinct_keys(s),
    ensures
        pairs_map(s).dom().finite(),
        pairs_map(s).len() == s.len(),
    decreases s.len(),
{
    if s.len() > 0 {
        let front = s.drop_last();
        assert(distinct_keys(front)) by {
            assert forall|a: int, b: int| 0 <= a < b < front.len() implies front[a].0 != front[b].0 by {
                assert(s[a].0 != s[b].0);
            }
        }
        lemma_pairs_map_len(front);
        lemma_pairs_map_keys(front, s.last().0);
        if pairs_map(front).contains_key(s.last().0) {
            let i = choose|i: int| 0 <= i < front.len() && (#[trigger] front[i]).0 == s.last().0;
            assert(s[i].0 != s[s.len() - 1].0);
        }
    }
}

/// Replacing the value of a pair, under the same key, sets that key in the
/// mapping and keeps the keys distinct.
pub proof fn lemma_pairs_map_update<K, V>(s: Seq<(K, V)>, i: int, key: K, value: V)
    requires
        distinct_keys(s),
        0 <= i < s.len(),
        s[i].0 == key,
    ensures
        distinct_keys(s.update(i, (key, value))),
        pairs_map(s.update(i, (key, value))) == pairs_map(s).insert(key, value),
{
    let u = s.update(i, (key, value));
    assert(distinct_keys(u)) by {
        assert forall|a: int, b: int| 0 <= a < b < u.len() implies u[a].0 != u[b].0 by {
            assert(s[a].0 != s[b].0);
        }
    }
    assert forall|k: K| pairs_map(u).contains_key(k) <==> pairs_map(s).insert(key, value).contains_key(k) by {
        lemma_pairs_map_keys(u, k);
        lemma_pairs_map_keys(s, k);
        if exists|j: int| 0 <= j < u.len() && (#[trigger] u[j]).0 == k {
            let j = choose|j: int| 0 <= j < u.len() && (#[trigger] u[j]).0 == k;
            assert(s[j].0 == k);
        }
        if exists|j: int| 0 <= j < s.len() && (#[trigger] s[j]).0 == k {
            let j = choose|j: int| 0 <= j < s.len() && (#[trigger] s[j]).0 == k;
            assert(u[j].0 == k);
        }
        if k == key {
            assert(u[i].0 == k);
        }
    }
    assert forall|k: K| pairs_map(u).contains_key(k) implies pairs_map(u)[k] == pairs_map(s).insert(key, value)[k] by {
        lemma_pairs_map_keys(u, k);
        let j = choose|j: int| 0 <= j < u.len() && (#[trigger] u[j]).0 == k;
        lemma_pairs_map_value(u, j);
        lemma_pairs_map_value(s, j);
    }
    assert(pairs_map(u) =~= pairs_map(s).insert(key, value));
}

/// Appending a pair under a key that no pair carries keeps the keys
/// distinct.
pub proof fn lemma_pairs_map_push<K, V>(s: Seq<(K, V)>, key: K, value: V)
    requires
        distinct_keys(s),
        forall|j: int| 0 <= j < s.len() ==> (#[trigger] s[j]).0 != key,
    ensures
        distinct_keys(s.push((key, value))),
        pairs_map(s.push((key, value))) == pairs_map(s).insert(key, value),
{
    let u = s.push((key, value));
    assert(u.drop_last() =~= s);
    assert(distinct_keys(u)) by {
        assert forall|a: int, b: int| 0 <= a < b < u.len() implies u[a].0 != u[b].0 by {
            if b < s.len() {
                assert(s[a].0 != s[b].0);
            }
        }
    }
}

} // verus!
