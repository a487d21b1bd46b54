//! Association lists: a sequence of key-value entries in which no key occurs
//! twice, read as a finite map. The directory keeps its users and sessions in
//! this form.

use vstd::prelude::*;

verus! {

/// No key occurs twice.
pub open spec fn keys_unique<K, V>(entries: Seq<(K, V)>) -> bool {
    forall|i: int, j: int|
        0 <= i < j < entries.len() ==> (#[trigger] entries[i]).0 != (#[trigger] entries[j]).0
}

/// Some entry has the key.
pub open spec fn has_key<K, V>(entries: Seq<(K, V)>, key: K) -> bool {
    exists|i: int| 0 <= i < entries.len() && (#[trigger] entries[i]).0 == key
}

/// The position of an entry that has the key.
pub open spec fn index_of<K, V>(entries: Seq<(K, V)>, key: K) -> int {
    choose|i: int| 0 <= i < entries.len() && (#[trigger] entries[i]).0 == key
}

/// The map that the entries spell out.
pub open spec fn as_map<K, V>(entries: Seq<(K, V)>) -> Map<K, V> {
    Map::new(|key: K| has_key(entries, key), |key: K| entries[index_of(entries, key)].1)
}

/// An entry's key maps to the entry's value.
pub proof fn lemma_entry<K, V>(entries: Seq<(K, V)>, i: int)
    requires
        keys_unique(entries),
        0 <= i < entries.len(),
    ensures
        as_map(entries).dom().contains(entries[i].0),
        as_map(entries)[entries[i].0] == entries[i].1,
        index_of(entries, entries[i].0) == i,
{
    let key = entries[i].0;
    assert(has_key(entries, key));
    let j = index_of(entries, key);
    assert(0 <= j < entries.len() && entries[j].0 == key);
    if j < i {
        assert(entries[j].0 != entries[i].0);
    } else if i < j {
        assert(entries[i].0 != entries[j].0);
    }
}

/// A key that no entry has is not in the map.
pub proof fn lemma_absent<K, V>(entries: Seq<(K, V)>, key: K)
    requires
        forall|i: int| 0 <= i < entries.len() ==> (#[trigger] entries[i]).0 != key,
    ensures
        !as_map(entries).dom().contains(key),
{
}

/// Appending an entry under a new key inserts it into the map.
pub proof fn lemma_push<K, V>(entries: Seq<(K, V)>, key: K, value: V)
    requires
        keys_unique(entries),
        !as_map(entries).dom().contains(key),
    ensures
        keys_unique(entries.push((key, value))),
        as_map(entries.push((key, value))) == as_map(entries).insert(key, value),
{
    let longer = entries.push((key, value));
    assert forall|i: int, j: int| 0 <= i < j < longer.len() implies (#[trigger] longer[i]).0 != (
    #[trigger] longer[j]).0 by {
        if j == entries.len() {
            if entries[i].0 == key {
                assert(has_key(entries, key));
            }
        } else {
            assert(entries[i].0 != entries[j].0);
        }
    }
    assert forall|q: K| #[trigger]
        as_map(longer).dom().contains(q) <==> as_map(entries).insert(key, value).dom().contains(
            q,
        ) by {
        if has_key(longer, q) {
            let i = index_of(longer, q);
            if i < entries.len() {
                assert(entries[i].0 == q);
            }
        }
        if has_key(entries, q) {
            let i = index_of(entries, q);
            assert(longer[i].0 == q);
        }
        if q == key {
            assert(longer[entries.len() as int].0 == q);
        }
    }
    assert forall|q: K| as_map(longer).dom().contains(q) implies #[trigger] as_map(longer)[q]
        == as_map(entries).insert(key, value)[q] by {
        let i = index_of(longer, q);
        lemma_entry(longer, i);
        if i < entries.len() {
            assert(entries[i] == longer[i]);
            lemma_entry(entries, i);
        }
    }
    assert(as_map(longer) =~= as_map(entries).insert(key, value));
}

/// Replacing the value of an entry replaces it in the map.
pub proof fn lemma_update<K, V>(entries: Seq<(K, V)>, i: int, value: V)
    requires
        keys_unique(entries),
        0 <= i < entries.len(),
    ensures
        keys_unique(entries.update(i, (entries[i].0, value))),
        as_map(entries.update(i, (entries[i].0, value))) == as_map(entries).insert(
            entries[i].0,
            value,
        ),
{
    let key = entries[i].0;
    let changed = entries.update(i, (key, value));
    assert forall|a: int, b: int| 0 <= a < b < changed.len() implies (#[trigger] changed[a]).0 != (
    #[trigger] changed[b]).0 by {
        assert(entries[a].0 != entries[b].0);
    }
    assert forall|q: K| #[trigger]
        as_map(changed).dom().contains(q) <==> as_map(entries).insert(key, value).dom().contains(
            q,
        ) by {
        if has_key(changed, q) {
            let k = index_of(changed, q);
            assert(entries[k].0 == q);
        }
        if has_key(entries, q) {
            let k = index_of(entries, q);
            assert(changed[k].0 == q);
        }
        if q == key {
            assert(changed[i].0 == q);
        }
    }
    assert forall|q: K| as_map(changed).dom().contains(q) implies #[trigger] as_map(changed)[q]
        == as_map(entries).insert(key, value)[q] by {
        let k = index_of(changed, q);
        lemma_entry(changed, k);
        assert(entries[k].0 == q);
        lemma_entry(entries, k);
    }
    assert(as_map(changed) =~= as_map(entries).insert(key, value));
}

} // verus!
