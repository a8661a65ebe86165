//! Association lists as mathematical maps.
//!
//! The library keeps its keyed data (inverter readings, metric samples) in
//! vectors of entries. This module says which map such a sequence of entries
//! stands for, and proves the facts about it that the rest of the library uses.

use vstd::prelude::*;

verus! {

/// The map obtained by writing `entries` into `base` one after another: a
/// later entry replaces an earlier one with the same key.
pub open spec fn written<K, V>(base: Map<K, V>, entries: Seq<(K, V)>) -> Map<K, V>
    decreases entries.len(),
{
    if entries.len() == 0 {
        base
    } else {
        written(base, entries.drop_last()).insert(entries.last().0, entries.last().1)
    }
}

/// The map that `entries` alone stand for.
pub open spec fn collected<K, V>(entries: Seq<(K, V)>) -> Map<K, V> {
    written(Map::empty(), entries)
}

/// Some entry carries `key`.
pub open spec fn has_key<K, V>(entries: Seq<(K, V)>, key: K) -> bool {
    exists|i: int| 0 <= i < entries.len() && (#[trigger] entries[i]).0 == key
}

/// No key occurs in two entries.
pub open spec fn distinct_keys<K, V>(entries: Seq<(K, V)>) -> bool {
    forall|i: int, j: int|
        0 <= i < j < entries.len() ==> (#[trigger] entries[i]).0 != (#[trigger] entries[j]).0
}

/// Entry `i` is the last one that carries its key.
pub open spec fn is_last_for_key<K, V>(entries: Seq<(K, V)>, i: int) -> bool {
    &&& 0 <= i < entries.len()
    &&& forall|j: int| i < j < entries.len() ==> (#[trigger] entries[j]).0 != entries[i].0
}

/// Two maps say the same of `key`: both lack it, or both hold the same value
/// for it.
pub open spec fn agree_at<K, V>(a: Map<K, V>, b: Map<K, V>, key: K) -> bool {
    &&& a.dom().contains(key) == b.dom().contains(key)
    &&& a.dom().contains(key) ==> a[key] == b[key]
}

/// Writing one more entry is one `insert`.
pub proof fn lemma_written_push<K, V>(base: Map<K, V>, entries: Seq<(K, V)>, key: K, value: V)
    ensures
        written(base, entries.push((key, value))) == written(base, entries).insert(key, value),
{
    assert(entries.push((key, value)).drop_last() =~= entries);
}

/// The keys of the result are those of `base` and those of the entries.
pub proof fn lemma_written_dom<K, V>(base: Map<K, V>, entries: Seq<(K, V)>, key: K)
    ensures
        written(base, entries).dom().contains(key) <==> base.dom().contains(key) || has_key(
            entries,
            key,
        ),
    decreases entries.len(),
{
    if entries.len() > 0 {
        let front = entries.drop_last();
        lemma_written_dom(base, front, key);
        if has_key(front, key) {
            let i = choose|i: int| 0 <= i < front.len() && (#[trigger] front[i]).0 == key;
            assert(entries[i].0 == key);
        }
        if has_key(entries, key) && entries.last().0 != key {
            let i = choose|i: int| 0 <= i < entries.len() && (#[trigger] entries[i]).0 == key;
            assert(front[i].0 == key);
        }
        if entries.last().0 == key {
            assert(entries[entries.len() - 1].0 == key);
        }
    }
}

/// Last write wins: the result holds, for a key, the value of the last entry
/// that carries it.
pub proof fn lemma_written_last_wins<K, V>(base: Map<K, V>, entries: Seq<(K, V)>, i: int)
    requires
        is_last_for_key(entries, i),
    ensures
        written(base, entries).dom().contains(entries[i].0),
        written(base, entries)[entries[i].0] == entries[i].1,
    decreases entries.len(),
{
    if i < entries.len() - 1 {
        let front = entries.drop_last();
        assert(front[i] == entries[i]);
        assert forall|j: int| i < j < front.len() implies (#[trigger] front[j]).0 != front[i].0 by {
            assert(entries[j].0 != entries[i].0);
        }
        lemma_written_last_wins(base, front, i);
        assert(entries[entries.len() - 1].0 != entries[i].0);
    }
}

/// Where no key occurs twice, every entry is the last one for its key.
pub proof fn lemma_distinct_is_last<K, V>(entries: Seq<(K, V)>, i: int)
    requires
        distinct_keys(entries),
        0 <= i < entries.len(),
    ensures
        is_last_for_key(entries, i),
{
    assert forall|j: int| i < j < entries.len() implies (#[trigger] entries[j]).0
        != entries[i].0 by {
        assert(entries[i].0 != entries[j].0);
    }
}

/// Replacing the value of the last entry for a key is one `insert`.
pub proof fn lemma_written_update<K, V>(base: Map<K, V>, entries: Seq<(K, V)>, i: int, value: V)
    requires
        is_last_for_key(entries, i),
    ensures
        written(base, entries.update(i, (entries[i].0, value))) == written(base, entries).insert(
            entries[i].0,
            value,
        ),
    decreases entries.len(),
{
    let key = entries[i].0;
    let changed = entries.update(i, (key, value));
    let front = entries.drop_last();
    if i == entries.len() - 1 {
        assert(changed.drop_last() =~= front);
        assert(written(base, front).insert(key, entries[i].1).insert(key, value) =~= written(
            base,
            front,
        ).insert(key, value));
    } else {
        assert(changed.drop_last() =~= front.update(i, (key, value)));
        assert(front[i] == entries[i]);
        assert forall|j: int| i < j < front.len() implies (#[trigger] front[j]).0 != front[i].0 by {
            assert(entries[j].0 != entries[i].0);
        }
        lemma_written_update(base, front, i, value);
        let last = entries.last();
        assert(entries[entries.len() - 1].0 != entries[i].0);
        assert(changed.last() == last);
        assert(written(base, front).insert(key, value).insert(last.0, last.1) =~= written(
            base,
            front,
        ).insert(last.0, last.1).insert(key, value));
    }
}

/// Replacing the value of an entry keeps the keys apart.
pub proof fn lemma_update_keeps_distinct<K, V>(entries: Seq<(K, V)>, i: int, value: V)
    requires
        distinct_keys(entries),
        0 <= i < entries.len(),
    ensures
        distinct_keys(entries.update(i, (entries[i].0, value))),
{
    let changed = entries.update(i, (entries[i].0, value));
    assert forall|a: int, b: int| 0 <= a < b < changed.len() implies (#[trigger] changed[a]).0 != (
    #[trigger] changed[b]).0 by {
        assert(entries[a].0 != entries[b].0);
    }
}

/// Adding an entry with a key that no entry carries keeps the keys apart.
pub proof fn lemma_push_keeps_distinct<K, V>(entries: Seq<(K, V)>, key: K, value: V)
    requires
        distinct_keys(entries),
        !has_key(entries, key),
    ensures
        distinct_keys(entries.push((key, value))),
{
    let longer = entries.push((key, value));
    assert forall|a: int, b: int| 0 <= a < b < longer.len() implies (#[trigger] longer[a]).0 != (
    #[trigger] longer[b]).0 by {
        if b < entries.len() {
            assert(entries[a].0 != entries[b].0);
        } else {
            assert(entries[a].0 != key);
        }
    }
}

} // verus!
