//! Lists of (key, value) pairs read as maps.
use vstd::prelude::*;

verus! {

/// The map a list of (key, value) pairs describes; a later pair wins.
pub open spec fn pairs_map<K, V>(v: Seq<(K, V)>) -> Map<K, V>
    decreases v.len(),
{
    if v.len() == 0 {
        Map::empty()
    } else {
        pairs_map(v.drop_last()).insert(v.last().0, v.last().1)
    }
}

/// No key occurs twice.
pub open spec fn distinct_keys<K, V>(v: Seq<(K, V)>) -> bool {
    forall|i: int, j: int| 0 <= i < j < v.len() ==> v[i].0 != v[j].0
}

/// A key in the map occurs in the list, and a listed key is in the map.
pub proof fn lemma_pairs_map_dom<K, V>(v: Seq<(K, V)>, k: K)
    ensures
        pairs_map(v).contains_key(k) <==> exists|i: int| 0 <= i < v.len() && v[i].0 == k,
    decreases v.len(),
{
    if v.len() > 0 {
        lemma_pairs_map_dom(v.drop_last(), k);
        if exists|i: int| 0 <= i < v.drop_last().len() && v.drop_last()[i].0 == k {
            let i = choose|i: int| 0 <= i < v.drop_last().len() && v.drop_last()[i].0 == k;
            assert(v[i].0 == k);
        }
        if exists|i: int| 0 <= i < v.len() && v[i].0 == k {
            let i = choose|i: int| 0 <= i < v.len() && v[i].0 == k;
            if i < v.len() - 1 {
                assert(v.drop_last()[i].0 == k);
            }
        }
    }
}

/// With distinct keys, a listed key maps to the value listed with it.
pub proof fn lemma_pairs_map_at<K, V>(v: Seq<(K, V)>, i: int)
    requires
        distinct_keys(v),
        0 <= i < v.len(),
    ensures
        pairs_map(v).contains_key(v[i].0),
        pairs_map(v)[v[i].0] == v[i].1,
    decreases v.len(),
{
    if i < v.len() - 1 {
        assert(v.drop_last()[i] == v[i]);
        lemma_pairs_map_at(v.drop_last(), i);
        assert(v.last() == v[v.len() - 1]);
    }
}

/// With distinct keys, replacing the value at one position replaces it in the
/// map.
pub proof fn lemma_pairs_map_update<K, V>(v: Seq<(K, V)>, i: int, x: V)
    requires
        distinct_keys(v),
        0 <= i < v.len(),
    ensures
        pairs_map(v.update(i, (v[i].0, x))) == pairs_map(v).insert(v[i].0, x),
    decreases v.len(),
{
    let u = v.update(i, (v[i].0, x));
    if i == v.len() - 1 {
        assert(u.drop_last() =~= v.drop_last());
        assert(pairs_map(u) =~= pairs_map(v).insert(v[i].0, x));
    } else {
        assert(u.drop_last() =~= v.drop_last().update(i, (v[i].0, x)));
        assert(v.drop_last()[i] == v[i]);
        lemma_pairs_map_update(v.drop_last(), i, x);
        assert(v.last().0 != v[i].0);
        assert(pairs_map(u) =~= pairs_map(v).insert(v[i].0, x));
    }
}

/// With distinct keys, removing the pair at one position removes its key from
/// the map.
pub proof fn lemma_pairs_map_remove<K, V>(v: Seq<(K, V)>, i: int)
    requires
        distinct_keys(v),
        0 <= i < v.len(),
    ensures
        pairs_map(v.remove(i)) == pairs_map(v).remove(v[i].0),
    decreases v.len(),
{
    let r = v.remove(i);
    if i == v.len() - 1 {
        assert(r =~= v.drop_last());
        assert forall|j: int| 0 <= j < v.drop_last().len() implies v.drop_last()[j].0 != v[i].0 by {
            assert(v.drop_last()[j] == v[j]);
        }
        lemma_pairs_map_dom(v.drop_last(), v[i].0);
        assert(pairs_map(r) =~= pairs_map(v).remove(v[i].0));
    } else {
        assert(r.drop_last() =~= v.drop_last().remove(i));
        assert(r.last() == v.last());
        assert(v.drop_last()[i] == v[i]);
        lemma_pairs_map_remove(v.drop_last(), i);
        assert(v.last().0 != v[i].0);
        assert(pairs_map(r) =~= pairs_map(v).remove(v[i].0));
    }
}

/// With distinct keys, the map has as many keys as the list has pairs.
pub proof fn lemma_pairs_map_len<K, V>(v: Seq<(K, V)>)
    requires
        distinct_keys(v),
    ensures
        pairs_map(v).dom().finite(),
        pairs_map(v).dom().len() == v.len(),
    decreases v.len(),
{
    if v.len() > 0 {
        lemma_pairs_map_len(v.drop_last());
        assert forall|j: int| 0 <= j < v.drop_last().len() implies v.drop_last()[j].0
            != v.last().0 by {
            assert(v.drop_last()[j] == v[j]);
        }
        lemma_pairs_map_dom(v.drop_last(), v.last().0);
    }
}

} // verus!
