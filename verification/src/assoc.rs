//! Association lists read as maps.
//!
//! The stores of this library keep their entries in vectors, in the order in
//! which they came, and look an entry up by its key. Their contracts speak
//! of the map that such a list stands for. The lemmas here relate pushing,
//! replacing and removing an entry of the list to the same change of the map.

use vstd::prelude::*;

verus! {

/// The map that a list of `(key, value)` entries stands for. Where a key
/// occurs twice, the later entry counts.
pub open spec fn to_map<K, V>(entries: Seq<(K, V)>) -> Map<K, V>
    decreases entries.len(),
{
    if entries.len() == 0 {
        Map::empty()
    } else {
        to_map(entries.drop_last()).insert(entries.last().0, entries.last().1)
    }
}

/// No key occurs in two entries.
pub open spec fn distinct_keys<K, V>(entries: Seq<(K, V)>) -> bool {
    forall|i: int, j: int| 0 <= i < j < entries.len() ==> entries[i].0 != entries[j].0
}

/// No entry has the key `key`.
pub open spec fn key_absent<K, V>(entries: Seq<(K, V)>, key: K) -> bool {
    forall|i: int| 0 <= i < entries.len() ==> (#[trigger] entries[i]).0 != key
}

/// A key that no entry has is not in the map.
pub proof fn lemma_absent<K, V>(entries: Seq<(K, V)>, key: K)
    requires
        key_absent(entries, key),
    ensures
        !to_map(entries).dom().contains(key),
    decreases entries.len(),
{
    if entries.len() > 0 {
        let front = entries.drop_last();
        assert forall|i: int| 0 <= i < front.len() implies (#[trigger] front[i]).0 != key by {
            assert(front[i] == entries[i]);
        }
        lemma_absent(front, key);
        assert(entries.last() == entries[entries.len() - 1]);
    }
}

/// With distinct keys, every entry of the list is an entry of the map.
pub proof fn lemma_present<K, V>(entries: Seq<(K, V)>, i: int)
    requires
        distinct_keys(entries),
        0 <= i < entries.len(),
    ensures
        to_map(entries).dom().contains(entries[i].0),
        to_map(entries)[entries[i].0] == entries[i].1,
    decreases entries.len(),
{
    let front = entries.drop_last();
    if i < entries.len() - 1 {
        assert(distinct_keys(front)) by {
            assert forall|a: int, b: int| 0 <= a < b < front.len() implies front[a].0 != front[b].0 by {
                assert(front[a] == entries[a] && front[b] == entries[b]);
            }
        }
        lemma_present(front, i);
        assert(front[i] == entries[i]);
        assert(entries[i].0 != entries[entries.len() - 1].0);
    }
}

/// Pushing an entry inserts it into the map.
pub proof fn lemma_push<K, V>(entries: Seq<(K, V)>, key: K, value: V)
    ensures
        to_map(entries.push((key, value))) == to_map(entries).insert(key, value),
        distinct_keys(entries) && key_absent(entries, key) ==> distinct_keys(
            entries.push((key, value)),
        ),
{
    let pushed = entries.push((key, value));
    assert(pushed.drop_last() =~= entries);
    if distinct_keys(entries) && key_absent(entries, key) {
        assert forall|a: int, b: int| 0 <= a < b < pushed.len() implies pushed[a].0
            != pushed[b].0 by {
            if b < entries.len() {
                assert(pushed[a] == entries[a] && pushed[b] == entries[b]);
            } else {
                assert(pushed[a] == entries[a]);
            }
        }
    }
}

/// Replacing the value of the entry at `i` replaces it in the map.
pub proof fn lemma_update<K, V>(entries: Seq<(K, V)>, i: int, value: V)
    requires
        distinct_keys(entries),
        0 <= i < entries.len(),
    ensures
        to_map(entries.update(i, (entries[i].0, value))) == to_map(entries).insert(
            entries[i].0,
            value,
        ),
        distinct_keys(entries.update(i, (entries[i].0, value))),
    decreases entries.len(),
{
    let key = entries[i].0;
    let changed = entries.update(i, (key, value));
    let front = entries.drop_last();
    assert(distinct_keys(changed));
    if i == entries.len() - 1 {
        assert(changed.drop_last() =~= front);
        assert(to_map(changed) =~= to_map(entries).insert(key, value));
    } else {
        assert(distinct_keys(front)) by {
            assert forall|a: int, b: int| 0 <= a < b < front.len() implies front[a].0 != front[b].0 by {
                assert(front[a] == entries[a] && front[b] == entries[b]);
            }
        }
        lemma_update(front, i, value);
        assert(front[i] == entries[i]);
        assert(changed.drop_last() =~= front.update(i, (key, value)));
        assert(changed.last() == entries.last());
        assert(entries.last().0 != key);
        assert(to_map(changed) =~= to_map(entries).insert(key, value));
    }
}

/// Removing the entry at `i` removes its key from the map.
pub proof fn lemma_remove<K, V>(entries: Seq<(K, V)>, i: int)
    requires
        distinct_keys(entries),
        0 <= i < entries.len(),
    ensures
        to_map(entries.remove(i)) == to_map(entries).remove(entries[i].0),
        distinct_keys(entries.remove(i)),
    decreases entries.len(),
{
    let key = entries[i].0;
    let rest = entries.remove(i);
    let front = entries.drop_last();
    assert(distinct_keys(rest)) by {
        assert forall|a: int, b: int| 0 <= a < b < rest.len() implies rest[a].0 != rest[b].0 by {
            let a0 = if a < i { a } else { a + 1 };
            let b0 = if b < i { b } else { b + 1 };
            assert(rest[a] == entries[a0] && rest[b] == entries[b0]);
        }
    }
    if i == entries.len() - 1 {
        assert(rest =~= front);
        assert(key_absent(front, key)) by {
            assert forall|a: int| 0 <= a < front.len() implies (#[trigger] front[a]).0 != key by {
                assert(front[a] == entries[a]);
            }
        }
        lemma_absent(front, key);
        assert(to_map(front) =~= to_map(entries).remove(key));
    } else {
        assert(distinct_keys(front)) by {
            assert forall|a: int, b: int| 0 <= a < b < front.len() implies front[a].0 != front[b].0 by {
                assert(front[a] == entries[a] && front[b] == entries[b]);
            }
        }
        lemma_remove(front, i);
        assert(front[i] == entries[i]);
        assert(rest.drop_last() =~= front.remove(i));
        assert(rest.last() == entries.last());
        assert(entries.last().0 != key);
        assert(to_map(rest) =~= to_map(entries).remove(key));
    }
}

/// A list with distinct keys has as many entries as its map has keys.
pub proof fn lemma_entry_count<K, V>(entries: Seq<(K, V)>)
    requires
        distinct_keys(entries),
    ensures
        to_map(entries).dom().finite(),
        to_map(entries).dom().len() == entries.len(),
    decreases entries.len(),
{
    if entries.len() > 0 {
        let front = entries.drop_last();
        assert(distinct_keys(front)) by {
            assert forall|a: int, b: int| 0 <= a < b < front.len() implies front[a].0 != front[b].0 by {
                assert(front[a] == entries[a] && front[b] == entries[b]);
            }
        }
        lemma_entry_count(front);
        assert(key_absent(front, entries.last().0)) by {
            assert forall|a: int| 0 <= a < front.len() implies (#[trigger] front[a]).0
                != entries.last().0 by {
                assert(front[a] == entries[a]);
            }
        }
        lemma_absent(front, entries.last().0);
    }
}

} // verus!
