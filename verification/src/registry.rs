//! Association lists keyed by an identity, and the maps they stand for.
//!
//! The registries of this crate keep their entries in a vector and speak of
//! them as a map. The lemmas here carry each change of the vector over to
//! the map.

use vstd::prelude::*;

verus! {

/// Whether `key` is the key of one of `entries`.
pub open spec fn listed<V>(entries: Seq<(u64, V)>, key: u64) -> bool {
    exists|i: int| 0 <= i < entries.len() && #[trigger] entries[i].0 == key
}

/// A position of `key` in `entries`.
pub open spec fn slot<V>(entries: Seq<(u64, V)>, key: u64) -> int {
    choose|i: int| 0 <= i < entries.len() && #[trigger] entries[i].0 == key
}

/// No key occurs twice in `entries`.
pub open spec fn distinct<V>(entries: Seq<(u64, V)>) -> bool {
    forall|i: int, j: int|
        0 <= i < entries.len() && 0 <= j < entries.len() && i != j ==> #[trigger] entries[i].0
            != #[trigger] entries[j].0
}

/// The map that `entries` stands for.
pub open spec fn as_map<V>(entries: Seq<(u64, V)>) -> Map<u64, V> {
    Map::new(|key: u64| listed(entries, key), |key: u64| entries[slot(entries, key)].1)
}

/// Each entry is found in the map under its own key.
pub proof fn lemma_at<V>(entries: Seq<(u64, V)>, i: int)
    requires
        distinct(entries),
        0 <= i < entries.len(),
    ensures
        listed(entries, entries[i].0),
        slot(entries, entries[i].0) == i,
        as_map(entries).contains_key(entries[i].0),
        as_map(entries)[entries[i].0] == entries[i].1,
{
    assert(listed(entries, entries[i].0));
    assert(slot(entries, entries[i].0) == i);
}

/// No entries, no keys.
pub proof fn lemma_empty<V>(entries: Seq<(u64, V)>)
    requires
        entries.len() == 0,
    ensures
        distinct(entries),
        as_map(entries) == Map::<u64, V>::empty(),
{
    assert(as_map(entries) =~= Map::<u64, V>::empty());
}

/// Appending an entry with a new key inserts it into the map.
pub proof fn lemma_push<V>(entries: Seq<(u64, V)>, entry: (u64, V))
    requires
        distinct(entries),
        !listed(entries, entry.0),
    ensures
        distinct(entries.push(entry)),
        as_map(entries.push(entry)) == as_map(entries).insert(entry.0, entry.1),
{
    let longer = entries.push(entry);
    assert(distinct(longer)) by {
        assert forall|i: int, j: int|
            0 <= i < longer.len() && 0 <= j < longer.len() && i != j implies longer[i].0
            != longer[j].0 by {
            if i < entries.len() && j < entries.len() {
                assert(entries[i].0 != entries[j].0);
            } else if i < entries.len() {
                assert(entries[i].0 == longer[i].0);
            } else {
                assert(entries[j].0 == longer[j].0);
            }
        }
    }
    assert forall|key: u64| listed(longer, key) <==> (key == entry.0 || listed(entries, key)) by {
        if listed(longer, key) {
            let i = slot(longer, key);
            if i < entries.len() {
                assert(entries[i].0 == key);
            }
        }
        if listed(entries, key) {
            let i = slot(entries, key);
            assert(longer[i].0 == key);
        }
        if key == entry.0 {
            assert(longer[entries.len() as int].0 == key);
        }
    }
    assert forall|key: u64| listed(longer, key) implies #[trigger] as_map(longer)[key] == as_map(
        entries,
    ).insert(entry.0, entry.1)[key] by {
        let i = slot(longer, key);
        lemma_at(longer, i);
        if i < entries.len() {
            assert(entries[i].0 == key);
            lemma_at(entries, i);
        }
    }
    assert(as_map(longer) =~= as_map(entries).insert(entry.0, entry.1));
}

/// Removing an entry removes its key from the map.
pub proof fn lemma_remove<V>(entries: Seq<(u64, V)>, i: int)
    requires
        distinct(entries),
        0 <= i < entries.len(),
    ensures
        distinct(entries.remove(i)),
        as_map(entries.remove(i)) == as_map(entries).remove(entries[i].0),
{
    let shorter = entries.remove(i);
    assert(distinct(shorter)) by {
        assert forall|a: int, b: int|
            0 <= a < shorter.len() && 0 <= b < shorter.len() && a != b implies shorter[a].0
            != shorter[b].0 by {
            let a0 = if a < i { a } else { a + 1 };
            let b0 = if b < i { b } else { b + 1 };
            assert(shorter[a] == entries[a0]);
            assert(shorter[b] == entries[b0]);
            assert(entries[a0].0 != entries[b0].0);
        }
    }
    assert forall|key: u64| listed(shorter, key) <==> (key != entries[i].0 && listed(
        entries,
        key,
    )) by {
        if listed(shorter, key) {
            let a = slot(shorter, key);
            let a0 = if a < i { a } else { a + 1 };
            assert(shorter[a] == entries[a0]);
            assert(entries[a0].0 == key);
            assert(entries[a0].0 != entries[i].0);
        }
        if key != entries[i].0 && listed(entries, key) {
            let a0 = slot(entries, key);
            let a = if a0 < i { a0 } else { a0 - 1 };
            assert(shorter[a] == entries[a0]);
            assert(shorter[a].0 == key);
        }
    }
    assert forall|key: u64| listed(shorter, key) implies #[trigger] as_map(shorter)[key]
        == as_map(entries)[key] by {
        let a = slot(shorter, key);
        let a0 = if a < i { a } else { a + 1 };
        assert(shorter[a] == entries[a0]);
        lemma_at(shorter, a);
        lemma_at(entries, a0);
    }
    assert(as_map(shorter) =~= as_map(entries).remove(entries[i].0));
}

/// Replacing the value of an entry replaces it in the map.
pub proof fn lemma_update<V>(entries: Seq<(u64, V)>, i: int, value: V)
    requires
        distinct(entries),
        0 <= i < entries.len(),
    ensures
        distinct(entries.update(i, (entries[i].0, value))),
        as_map(entries.update(i, (entries[i].0, value))) == as_map(entries).insert(
            entries[i].0,
            value,
        ),
{
    let changed = entries.update(i, (entries[i].0, value));
    assert(forall|j: int| 0 <= j < entries.len() ==> changed[j].0 == entries[j].0);
    assert(distinct(changed)) by {
        assert forall|a: int, b: int|
            0 <= a < changed.len() && 0 <= b < changed.len() && a != b implies changed[a].0
            != changed[b].0 by {
            assert(entries[a].0 != entries[b].0);
        }
    }
    assert forall|key: u64| listed(changed, key) <==> listed(entries, key) by {
        if listed(changed, key) {
            let a = slot(changed, key);
            assert(entries[a].0 == key);
        }
        if listed(entries, key) {
            let a = slot(entries, key);
            assert(changed[a].0 == key);
        }
    }
    lemma_at(entries, i);
    assert forall|key: u64| listed(changed, key) implies #[trigger] as_map(changed)[key]
        == as_map(entries).insert(entries[i].0, value)[key] by {
        let a = slot(changed, key);
        lemma_at(changed, a);
        assert(entries[a].0 == key);
        lemma_at(entries, a);
    }
    assert(as_map(changed) =~= as_map(entries).insert(entries[i].0, value));
}

/// The map of distinct entries has as many keys as there are entries.
pub proof fn lemma_size<V>(entries: Seq<(u64, V)>)
    requires
        distinct(entries),
    ensures
        as_map(entries).dom().finite(),
        as_map(entries).dom().len() == entries.len(),
    decreases entries.len(),
{
    if entries.len() == 0 {
        assert(as_map(entries).dom() =~= Set::<u64>::empty());
    } else {
        let last = entries.len() - 1;
        let shorter = entries.remove(last);
        lemma_remove(entries, last);
        lemma_size(shorter);
        lemma_at(entries, last);
        assert(as_map(entries).dom() =~= as_map(shorter).dom().insert(entries[last].0));
    }
}

} // verus!
