//! Association lists read as maps: a later entry for a key hides the earlier
//! ones.

use vstd::prelude::*;

verus! {

/// The map that a list of key-value entries stands for.
pub open spec fn to_map<K, V>(entries: Seq<(K, V)>) -> Map<K, V>
    decreases entries.len(),
{
    if entries.len() == 0 {
        Map::empty()
    } else {
        to_map(entries.drop_last()).insert(entries.last().0, entries.last().1)
    }
}

/// Whether no entry from position `from` on has the key `key`.
pub open spec fn absent_from<K, V>(entries: Seq<(K, V)>, key: K, from: int) -> bool {
    forall|j: int| from <= j < entries.len() ==> (#[trigger] entries[j]).0 != key
}

/// Appending an entry inserts it into the map.
pub proof fn lemma_to_map_push<K, V>(entries: Seq<(K, V)>, key: K, value: V)
    ensures
        to_map(entries.push((key, value))) == to_map(entries).insert(key, value),
{
    assert(entries.push((key, value)).drop_last() =~= entries);
}

/// A key that no entry has is not in the map.
pub proof fn lemma_to_map_absent<K, V>(entries: Seq<(K, V)>, key: K)
    requires
        absent_from(entries, key, 0),
    ensures
        !to_map(entries).contains_key(key),
    decreases entries.len(),
{
    if entries.len() > 0 {
        lemma_to_map_absent(entries.drop_last(), key);
    }
}

/// The last entry for a key gives the map's value at that key.
pub proof fn lemma_to_map_last_entry<K, V>(entries: Seq<(K, V)>, i: int)
    requires
        0 <= i < entries.len(),
        absent_from(entries, entries[i].0, i + 1),
    ensures
        to_map(entries).contains_key(entries[i].0),
        to_map(entries)[entries[i].0] == entries[i].1,
    decreases entries.len(),
{
    if i < entries.len() - 1 {
        let rest = entries.drop_last();
        lemma_to_map_last_entry(rest, i);
    }
}

/// Replacing the value of the last entry for a key replaces the map's value
/// at that key.
pub proof fn lemma_to_map_update<K, V>(entries: Seq<(K, V)>, i: int, value: V)
    requires
        0 <= i < entries.len(),
        absent_from(entries, entries[i].0, i + 1),
    ensures
        to_map(entries.update(i, (entries[i].0, value))) == to_map(entries).insert(
            entries[i].0,
            value,
        ),
    decreases entries.len(),
{
    let key = entries[i].0;
    let updated = entries.update(i, (key, value));
    let rest = entries.drop_last();
    if i < entries.len() - 1 {
        lemma_to_map_update(rest, i, value);
        assert(updated.drop_last() =~= rest.update(i, (key, value)));
    } else {
        assert(updated.drop_last() =~= rest);
    }
}

/// What holds of every entry holds of every key of the map and its value.
pub proof fn lemma_to_map_entries<K, V>(entries: Seq<(K, V)>, holds: spec_fn(K, V) -> bool)
    requires
        forall|i: int| 0 <= i < entries.len() ==> holds((#[trigger] entries[i]).0, entries[i].1),
    ensures
        forall|key: K| #[trigger]
            to_map(entries).contains_key(key) ==> holds(key, to_map(entries)[key]),
    decreases entries.len(),
{
    if entries.len() > 0 {
        let rest = entries.drop_last();
        lemma_to_map_entries(rest, holds);
        assert forall|key: K| #[trigger] to_map(entries).contains_key(key) implies holds(
            key,
            to_map(entries)[key],
        ) by {
            if key != entries.last().0 {
                assert(to_map(rest).contains_key(key));
            }
        }
    }
}

} // verus!
