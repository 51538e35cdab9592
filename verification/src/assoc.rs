//! Association sequences: `Seq<(K, V)>` viewed as a `Map<K, V>`.
//!
//! The registries in this crate store their entries in vectors whose views
//! are key/value sequences; contracts speak of the map such a sequence
//! denotes.  The lemmas here connect the sequence operations the executable
//! code performs (push, update, remove) to the map operations the contracts
//! state (insert, remove), under the invariant that keys are distinct.

use vstd::prelude::*;

verus! {

/// The map denoted by an association sequence; on duplicate keys the later
/// entry wins.
pub open spec fn seq_to_map<K, V>(entries: Seq<(K, V)>) -> Map<K, V>
    decreases entries.len(),
{
    if entries.len() == 0 {
        Map::empty()
    } else {
        seq_to_map(entries.drop_last()).insert(entries.last().0, entries.last().1)
    }
}

/// No key occurs twice.
pub open spec fn distinct_keys<K, V>(entries: Seq<(K, V)>) -> bool {
    forall|i: int, j: int|
        0 <= i < j < entries.len() ==> (#[trigger] entries[i]).0 != (#[trigger] entries[j]).0
}

/// A key is in the map exactly when some entry carries it.
pub proof fn lemma_seq_to_map_contains<K, V>(entries: Seq<(K, V)>, k: K)
    ensures
        seq_to_map(entries).contains_key(k) <==> (exists|i: int|
            0 <= i < entries.len() && (#[trigger] entries[i]).0 == k),
    decreases entries.len(),
{
    if entries.len() > 0 {
        lemma_seq_to_map_contains(entries.drop_last(), k);
        let last = entries.len() - 1;
        if entries[last].0 == k {
            assert((entries[last]).0 == k);
        } else {
            if exists|i: int| 0 <= i < entries.len() && (#[trigger] entries[i]).0 == k {
                let i = choose|i: int| 0 <= i < entries.len() && (#[trigger] entries[i]).0 == k;
                assert((entries.drop_last()[i]).0 == k);
            }
            if exists|i: int| 0 <= i < entries.drop_last().len() && (
            #[trigger] entries.drop_last()[i]).0 == k {
                let i = choose|i: int|
                    0 <= i < entries.drop_last().len() && (#[trigger] entries.drop_last()[i]).0
                        == k;
                assert((entries[i]).0 == k);
            }
        }
    }
}

/// With distinct keys, the entry holding a key gives its map value.
pub proof fn lemma_seq_to_map_index<K, V>(entries: Seq<(K, V)>, i: int)
    requires
        distinct_keys(entries),
        0 <= i < entries.len(),
    ensures
        seq_to_map(entries).contains_key(entries[i].0),
        seq_to_map(entries)[entries[i].0] == entries[i].1,
    decreases entries.len(),
{
    let last = entries.len() - 1;
    if i == last {
    } else {
        assert(entries.drop_last()[i] == entries[i]);
        lemma_seq_to_map_index(entries.drop_last(), i);
        assert(entries[last].0 != entries[i].0);
    }
}

/// Appending an entry under a fresh key inserts it into the map.
pub proof fn lemma_seq_to_map_push<K, V>(entries: Seq<(K, V)>, k: K, v: V)
    ensures
        seq_to_map(entries.push((k, v))) == seq_to_map(entries).insert(k, v),
{
    assert(entries.push((k, v)).drop_last() =~= entries);
}

/// Overwriting the entry that holds a key updates it in the map.
pub proof fn lemma_seq_to_map_update<K, V>(entries: Seq<(K, V)>, i: int, v: V)
    requires
        distinct_keys(entries),
        0 <= i < entries.len(),
    ensures
        seq_to_map(entries.update(i, (entries[i].0, v))) == seq_to_map(entries).insert(
            entries[i].0,
            v,
        ),
        distinct_keys(entries.update(i, (entries[i].0, v))),
    decreases entries.len(),
{
    let k = entries[i].0;
    let updated = entries.update(i, (k, v));
    assert(forall|j: int| 0 <= j < entries.len() && j != i ==> updated[j] == entries[j]);
    let last = entries.len() - 1;
    if i == last {
        assert(updated.drop_last() =~= entries.drop_last());
    } else {
        assert(updated.drop_last() =~= entries.drop_last().update(i, (k, v)));
        assert(entries.drop_last()[i] == entries[i]);
        lemma_seq_to_map_update(entries.drop_last(), i, v);
        assert(entries[last].0 != k);
        assert(seq_to_map(updated) =~= seq_to_map(entries).insert(k, v));
    }
}

/// Removing the entry that holds a key removes the key from the map.
pub proof fn lemma_seq_to_map_remove<K, V>(entries: Seq<(K, V)>, i: int)
    requires
        distinct_keys(entries),
        0 <= i < entries.len(),
    ensures
        seq_to_map(entries.remove(i)) == seq_to_map(entries).remove(entries[i].0),
        distinct_keys(entries.remove(i)),
    decreases entries.len(),
{
    let k = entries[i].0;
    let removed = entries.remove(i);
    assert(forall|j: int| 0 <= j < i ==> removed[j] == entries[j]);
    assert(forall|j: int| i <= j < removed.len() ==> removed[j] == entries[j + 1]);
    let last = entries.len() - 1;
    if i == last {
        assert(removed =~= entries.drop_last());
        lemma_seq_to_map_contains(entries.drop_last(), k);
        assert(seq_to_map(removed) =~= seq_to_map(entries).remove(k));
    } else {
        assert(removed.drop_last() =~= entries.drop_last().remove(i));
        assert(entries.drop_last()[i] == entries[i]);
        lemma_seq_to_map_remove(entries.drop_last(), i);
        assert(removed.last() == entries.last());
        assert(entries[last].0 != k);
        assert(seq_to_map(removed) =~= seq_to_map(entries).remove(k));
    }
}

} // verus!
