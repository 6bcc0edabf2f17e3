//! Key-value sequences read as maps.
//!
//! Policy tables are held as vectors of `(key, value)` pairs with distinct
//! keys; their meaning is the finite map where the latest entry for a key
//! wins. The lemmas here let in-place update, filtering and lookup on the
//! vector be read as `insert`, `remove` and indexing on the map.

use vstd::prelude::*;

verus! {

/// The map a sequence of pairs means: later entries override earlier ones.
pub open spec fn pair_map<K, V>(s: Seq<(K, V)>) -> Map<K, V>
    decreases s.len(),
{
    if s.len() == 0 {
        Map::empty()
    } else {
        pair_map(s.drop_last()).insert(s.last().0, s.last().1)
    }
}

/// No two entries share a key.
pub open spec fn unique_keys<K, V>(s: Seq<(K, V)>) -> bool {
    forall|i: int, j: int| 0 <= i < j < s.len() ==> s[i].0 != s[j].0
}

/// The entries that survive removing key `k`, in order.
pub open spec fn remove_key_seq<K, V>(s: Seq<(K, V)>, k: K) -> Seq<(K, V)>
    decreases s.len(),
{
    if s.len() == 0 {
        Seq::empty()
    } else {
        let p = remove_key_seq(s.drop_last(), k);
        if s.last().0 == k {
            p
        } else {
            p.push(s.last())
        }
    }
}

/// A key is in the map exactly when some entry carries it.
pub proof fn lemma_pair_map_contains<K, V>(s: Seq<(K, V)>, k: K)
    ensures
        pair_map(s).contains_key(k) <==> exists|i: int| 0 <= i < s.len() && s[i].0 == k,
    decreases s.len(),
{
    if s.len() > 0 {
        lemma_pair_map_contains(s.drop_last(), k);
        if s.last().0 == k {
            assert(s[s.len() - 1].0 == k);
        } else if pair_map(s).contains_key(k) {
            let i = choose|i: int| 0 <= i < s.drop_last().len() && s.drop_last()[i].0 == k;
            assert(s[i].0 == k);
        } else {
            assert(forall|i: int| 0 <= i < s.len() - 1 ==> s[i].0 != k) by {
                assert(forall|i: int|
                    0 <= i < s.drop_last().len() ==> s.drop_last()[i] == s[i]);
            }
        }
    }
}

/// Updating the entry that carries `k` is `insert` on the map.
pub proof fn lemma_pair_map_update<K, V>(s: Seq<(K, V)>, i: int, v: V)
    requires
        unique_keys(s),
        0 <= i < s.len(),
    ensures
        pair_map(s.update(i, (s[i].0, v))) == pair_map(s).insert(s[i].0, v),
        unique_keys(s.update(i, (s[i].0, v))),
    decreases s.len(),
{
    let k = s[i].0;
    let t = s.update(i, (k, v));
    assert(unique_keys(t)) by {
        assert(forall|a: int| 0 <= a < t.len() ==> t[a].0 == s[a].0);
    }
    if i == s.len() - 1 {
        assert(t.drop_last() =~= s.drop_last());
        assert(pair_map(t) =~= pair_map(s).insert(k, v));
    } else {
        assert(unique_keys(s.drop_last())) by {
            assert(forall|a: int, b: int|
                0 <= a < b < s.drop_last().len() ==> s.drop_last()[a] == s[a] && s.drop_last()[b]
                    == s[b]);
        }
        assert(t.drop_last() =~= s.drop_last().update(i, (k, v)));
        assert(s.drop_last()[i] == s[i]);
        lemma_pair_map_update(s.drop_last(), i, v);
        assert(s.last().0 != k);
        assert(t.last() == s.last());
        assert(pair_map(t) =~= pair_map(s).insert(k, v));
    }
}

/// Filtering out key `k` is `remove` on the map, and keeps keys distinct.
pub proof fn lemma_pair_map_remove<K, V>(s: Seq<(K, V)>, k: K)
    ensures
        pair_map(remove_key_seq(s, k)) == pair_map(s).remove(k),
        unique_keys(s) ==> unique_keys(remove_key_seq(s, k)),
        remove_key_seq(s, k).len() <= s.len(),
        forall|i: int|
            0 <= i < remove_key_seq(s, k).len() ==> remove_key_seq(s, k)[i].0 != k && (exists|
                j: int,
            | 0 <= j < s.len() && s[j] == remove_key_seq(s, k)[i]),
    decreases s.len(),
{
    if s.len() == 0 {
        assert(pair_map(remove_key_seq(s, k)) =~= pair_map(s).remove(k));
    } else {
        lemma_pair_map_remove(s.drop_last(), k);
        let p = remove_key_seq(s.drop_last(), k);
        assert(forall|i: int| 0 <= i < s.drop_last().len() ==> s.drop_last()[i] == s[i]);
        if s.last().0 == k {
            assert(pair_map(remove_key_seq(s, k)) =~= pair_map(s).remove(k));
        } else {
            assert(remove_key_seq(s, k) == p.push(s.last()));
            assert(p.push(s.last()).drop_last() =~= p);
            assert(p.push(s.last()).last() == s.last());
            assert(pair_map(remove_key_seq(s, k)) =~= pair_map(s).remove(k));
            if unique_keys(s) {
                assert(unique_keys(p.push(s.last()))) by {
                    assert(forall|i: int|
                        0 <= i < p.len() ==> p[i].0 != k && (exists|j: int|
                            0 <= j < s.drop_last().len() && s.drop_last()[j] == p[i]));
                    assert(forall|i: int| 0 <= i < p.len() ==> p.push(s.last())[i] == p[i]);
                    assert forall|i: int| 0 <= i < p.len() implies p[i].0 != s.last().0 by {
                        let j = choose|j: int|
                            0 <= j < s.drop_last().len() && s.drop_last()[j] == p[i];
                        assert(s[j] == p[i]);
                    }
                }
            }
        }
    }
}

} // verus!
