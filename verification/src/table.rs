//! Ghost helpers that read a sequence of entries as a map or a set.
//!
//! The stores and the in-flight registry keep their entries in vectors;
//! their views are the map (or set) that those entries denote. The
//! lemmas here connect vector edits (push, remove) with map and set
//! operations, under the invariant that keys occur at most once.

use vstd::prelude::*;

verus! {

/// Every key occurs at most once among the entries.
pub open spec fn keys_unique<K, V>(s: Seq<(K, V)>) -> bool {
    forall|i: int, j: int|
        #![trigger s[i].0, s[j].0]
        0 <= i < j < s.len() ==> s[i].0 != s[j].0
}

/// The map that a sequence of key-value entries denotes; a later entry
/// for a key overrides an earlier one.
pub open spec fn map_of<K, V>(s: Seq<(K, V)>) -> Map<K, V>
    decreases s.len(),
{
    if s.len() == 0 {
        Map::empty()
    } else {
        map_of(s.drop_last()).insert(s.last().0, s.last().1)
    }
}

pub proof fn lemma_map_of_domain<K, V>(s: Seq<(K, V)>, k: K)
    ensures
        map_of(s).contains_key(k) <==> exists|i: int| 0 <= i < s.len() && s[i].0 == k,
    decreases s.len(),
{
    if s.len() > 0 {
        lemma_map_of_domain(s.drop_last(), k);
        if map_of(s).contains_key(k) {
            if s.last().0 == k {
                assert(s[s.len() - 1].0 == k);
            } else {
                let i = choose|i: int| 0 <= i < s.drop_last().len() && s.drop_last()[i].0 == k;
                assert(s[i].0 == k);
            }
        } else {
            assert(forall|i: int| 0 <= i < s.len() - 1 ==> s[i] == s.drop_last()[i]);
        }
    }
}

pub proof fn lemma_map_of_index<K, V>(s: Seq<(K, V)>, i: int)
    requires
        keys_unique(s),
        0 <= i < s.len(),
    ensures
        map_of(s).contains_key(s[i].0),
        map_of(s)[s[i].0] == s[i].1,
    decreases s.len(),
{
    if i == s.len() - 1 {
    } else {
        assert(keys_unique(s.drop_last()));
        assert(s.drop_last()[i] == s[i]);
        lemma_map_of_index(s.drop_last(), i);
        assert(s[i].0 != s.last().0);
    }
}

pub proof fn lemma_map_of_push<K, V>(s: Seq<(K, V)>, k: K, v: V)
    ensures
        map_of(s.push((k, v))) == map_of(s).insert(k, v),
{
    assert(s.push((k, v)).drop_last() =~= s);
    assert(s.push((k, v)).last() == (k, v));
}

pub proof fn lemma_map_of_remove<K, V>(s: Seq<(K, V)>, i: int)
    requires
        keys_unique(s),
        0 <= i < s.len(),
    ensures
        map_of(s.remove(i)) =~= map_of(s).remove(s[i].0),
    decreases s.len(),
{
    lemma_map_of_domain(s, s[i].0);
    if i == s.len() - 1 {
        assert(s.remove(i) =~= s.drop_last());
        lemma_map_of_domain(s.drop_last(), s[i].0);
        assert(forall|p: int| 0 <= p < s.len() - 1 ==> s.drop_last()[p] == s[p]);
        assert(!map_of(s.drop_last()).contains_key(s[i].0));
        assert(map_of(s.drop_last()) =~= map_of(s).remove(s[i].0));
    } else {
        assert(keys_unique(s.drop_last()));
        assert(s.drop_last()[i] == s[i]);
        lemma_map_of_remove(s.drop_last(), i);
        assert(s.remove(i).drop_last() =~= s.drop_last().remove(i));
        assert(s.remove(i).last() == s.last());
        assert(map_of(s.remove(i)) == map_of(s.drop_last().remove(i)).insert(s.last().0, s.last().1));
        assert(s[i].0 != s.last().0);
        assert(map_of(s.drop_last()).remove(s[i].0).insert(s.last().0, s.last().1)
            =~= map_of(s.drop_last()).insert(s.last().0, s.last().1).remove(s[i].0));
    }
}

pub proof fn lemma_keys_unique_remove<K, V>(s: Seq<(K, V)>, i: int)
    requires
        keys_unique(s),
        0 <= i < s.len(),
    ensures
        keys_unique(s.remove(i)),
{
    assert forall|p: int, q: int|
        0 <= p < q < s.remove(i).len() implies s.remove(i)[p].0 != s.remove(i)[q].0 by {
        assert(s.remove(i)[p] == if p < i { s[p] } else { s[p + 1] });
        assert(s.remove(i)[q] == if q < i { s[q] } else { s[q + 1] });
    }
}

/// Every element occurs at most once.
pub open spec fn elems_unique<K>(s: Seq<K>) -> bool {
    forall|i: int, j: int|
        #![trigger s[i], s[j]]
        0 <= i < j < s.len() ==> s[i] != s[j]
}

/// The set of elements of a sequence.
pub open spec fn set_of<K>(s: Seq<K>) -> Set<K>
    decreases s.len(),
{
    if s.len() == 0 {
        Set::empty()
    } else {
        set_of(s.drop_last()).insert(s.last())
    }
}

pub proof fn lemma_set_of_contains<K>(s: Seq<K>, k: K)
    ensures
        set_of(s).contains(k) <==> exists|i: int| 0 <= i < s.len() && s[i] == k,
    decreases s.len(),
{
    if s.len() > 0 {
        lemma_set_of_contains(s.drop_last(), k);
        if set_of(s).contains(k) {
            if s.last() == k {
                assert(s[s.len() - 1] == k);
            } else {
                let i = choose|i: int| 0 <= i < s.drop_last().len() && s.drop_last()[i] == k;
                assert(s[i] == k);
            }
        } else {
            assert(forall|i: int| 0 <= i < s.len() - 1 ==> s[i] == s.drop_last()[i]);
        }
    }
}

pub proof fn lemma_set_of_push<K>(s: Seq<K>, k: K)
    ensures
        set_of(s.push(k)) == set_of(s).insert(k),
{
    assert(s.push(k).drop_last() =~= s);
    assert(s.push(k).last() == k);
}

pub proof fn lemma_elems_unique_remove<K>(s: Seq<K>, i: int)
    requires
        elems_unique(s),
        0 <= i < s.len(),
    ensures
        elems_unique(s.remove(i)),
{
    assert forall|p: int, q: int|
        0 <= p < q < s.remove(i).len() implies s.remove(i)[p] != s.remove(i)[q] by {
        assert(s.remove(i)[p] == if p < i { s[p] } else { s[p + 1] });
        assert(s.remove(i)[q] == if q < i { s[q] } else { s[q + 1] });
    }
}

pub proof fn lemma_set_of_remove<K>(s: Seq<K>, i: int)
    requires
        elems_unique(s),
        0 <= i < s.len(),
    ensures
        set_of(s.remove(i)) =~= set_of(s).remove(s[i]),
    decreases s.len(),
{
    lemma_set_of_contains(s, s[i]);
    if i == s.len() - 1 {
        assert(s.remove(i) =~= s.drop_last());
        lemma_set_of_contains(s.drop_last(), s[i]);
        assert(forall|p: int| 0 <= p < s.len() - 1 ==> s.drop_last()[p] == s[p]);
        assert(!set_of(s.drop_last()).contains(s[i]));
        assert(set_of(s.drop_last()) =~= set_of(s).remove(s[i]));
    } else {
        assert(elems_unique(s.drop_last()));
        assert(s.drop_last()[i] == s[i]);
        lemma_set_of_remove(s.drop_last(), i);
        assert(s.remove(i).drop_last() =~= s.drop_last().remove(i));
        assert(s.remove(i).last() == s.last());
        assert(set_of(s.remove(i)) == set_of(s.drop_last().remove(i)).insert(s.last()));
        assert(s[i] != s.last());
        assert(set_of(s.drop_last()).remove(s[i]).insert(s.last())
            =~= set_of(s.drop_last()).insert(s.last()).remove(s[i]));
    }
}

} // verus!
