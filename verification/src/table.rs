//! Lists of keyed entries, seen as maps.

use vstd::prelude::*;

verus! {

/// Whether an entry has a key.
pub open spec fn has_key<K, V>(entries: Seq<(K, V)>, key: K) -> bool {
    exists|i: int| 0 <= i < entries.len() && (#[trigger] entries[i]).0 == key
}

/// The place of an entry with a key.
pub open spec fn place<K, V>(entries: Seq<(K, V)>, key: K) -> int {
    choose|i: int| 0 <= i < entries.len() && (#[trigger] entries[i]).0 == key
}

/// Whether no two entries share a key.
pub open spec fn distinct<K, V>(entries: Seq<(K, V)>) -> bool {
    forall|i: int, j: int|
        0 <= i < j < entries.len() ==> (#[trigger] entries[i]).0 != (#[trigger] entries[j]).0
}

/// The map that a list of entries stands for.
pub open spec fn map_of<K, V>(entries: Seq<(K, V)>) -> Map<K, V> {
    Map::new(|key: K| has_key(entries, key), |key: K| entries[place(entries, key)].1)
}

/// An entry is in the map under its key.
pub proof fn lemma_entry<K, V>(entries: Seq<(K, V)>, i: int)
    requires
        distinct(entries),
        0 <= i < entries.len(),
    ensures
        map_of(entries).contains_key(entries[i].0),
        map_of(entries)[entries[i].0] == entries[i].1,
{
    let key = entries[i].0;
    assert(has_key(entries, key));
    let p = place(entries, key);
    assert(p == i);
}

/// A key that no entry has is not in the map.
pub proof fn lemma_absent<K, V>(entries: Seq<(K, V)>, key: K)
    requires
        forall|i: int| 0 <= i < entries.len() ==> (#[trigger] entries[i]).0 != key,
    ensures
        !map_of(entries).contains_key(key),
{
}

/// An empty list stands for the empty map.
pub proof fn lemma_empty<K, V>()
    ensures
        distinct(Seq::<(K, V)>::empty()),
        map_of(Seq::<(K, V)>::empty()) == Map::<K, V>::empty(),
{
    assert(map_of(Seq::<(K, V)>::empty()) =~= Map::<K, V>::empty());
}

/// A new entry at the end adds its key.
pub proof fn lemma_push<K, V>(entries: Seq<(K, V)>, key: K, value: V)
    requires
        distinct(entries),
        forall|i: int| 0 <= i < entries.len() ==> (#[trigger] entries[i]).0 != key,
    ensures
        distinct(entries.push((key, value))),
        map_of(entries.push((key, value))) == map_of(entries).insert(key, value),
{
    let after = entries.push((key, value));
    assert forall|k: K| map_of(after).contains_key(k) == map_of(entries).insert(
        key,
        value,
    ).contains_key(k) by {
        if has_key(entries, k) {
            let i = place(entries, k);
            assert(after[i].0 == k);
        }
        if k == key {
            assert(after[entries.len() as int].0 == key);
        }
        if has_key(after, k) && k != key {
            let i = place(after, k);
            assert(entries[i].0 == k);
        }
    }
    assert forall|k: K| map_of(after).contains_key(k) implies map_of(after)[k] == map_of(
        entries,
    ).insert(key, value)[k] by {
        let i = place(after, k);
        lemma_entry(after, i);
        if k == key {
            lemma_entry(after, entries.len() as int);
        } else {
            lemma_entry(entries, i);
        }
    }
    assert(map_of(after) =~= map_of(entries).insert(key, value));
}

/// A new entry at any place adds its key.
pub proof fn lemma_insert<K, V>(entries: Seq<(K, V)>, at: int, key: K, value: V)
    requires
        distinct(entries),
        0 <= at <= entries.len(),
        forall|i: int| 0 <= i < entries.len() ==> (#[trigger] entries[i]).0 != key,
    ensures
        distinct(entries.insert(at, (key, value))),
        map_of(entries.insert(at, (key, value))) == map_of(entries).insert(key, value),
{
    let after = entries.insert(at, (key, value));
    assert(distinct(after)) by {
        assert forall|i: int, j: int| 0 <= i < j < after.len() implies (#[trigger] after[i]).0 != (
        #[trigger] after[j]).0 by {
            if i != at && j != at {
                let k = if i < at {
                    i
                } else {
                    i - 1
                };
                let l = if j < at {
                    j
                } else {
                    j - 1
                };
                assert(after[i] == entries[k]);
                assert(after[j] == entries[l]);
            } else if i == at {
                assert(after[j] == entries[j - 1]);
            } else {
                assert(after[i] == entries[i]);
            }
        }
    }
    lemma_remove(after, at);
    assert(after.remove(at) =~= entries);
    lemma_entry(after, at);
    assert(map_of(after) =~= map_of(entries).insert(key, value));
}

/// A changed entry changes the value of its key.
pub proof fn lemma_update<K, V>(entries: Seq<(K, V)>, i: int, value: V)
    requires
        distinct(entries),
        0 <= i < entries.len(),
    ensures
        distinct(entries.update(i, (entries[i].0, value))),
        map_of(entries.update(i, (entries[i].0, value))) == map_of(entries).insert(
            entries[i].0,
            value,
        ),
{
    let key = entries[i].0;
    let after = entries.update(i, (key, value));
    assert forall|k: K| map_of(after).contains_key(k) == map_of(entries).insert(
        key,
        value,
    ).contains_key(k) by {
        if has_key(entries, k) {
            assert(after[place(entries, k)].0 == k);
        }
        if has_key(after, k) {
            assert(entries[place(after, k)].0 == k);
        }
    }
    assert forall|k: K| map_of(after).contains_key(k) implies map_of(after)[k] == map_of(
        entries,
    ).insert(key, value)[k] by {
        let p = place(after, k);
        lemma_entry(after, p);
        lemma_entry(entries, p);
        lemma_entry(after, i);
    }
    assert(map_of(after) =~= map_of(entries).insert(key, value));
}

/// A removed entry removes its key.
pub proof fn lemma_remove<K, V>(entries: Seq<(K, V)>, i: int)
    requires
        distinct(entries),
        0 <= i < entries.len(),
    ensures
        distinct(entries.remove(i)),
        map_of(entries.remove(i)) == map_of(entries).remove(entries[i].0),
{
    let key = entries[i].0;
    let after = entries.remove(i);
    assert forall|k: K| map_of(after).contains_key(k) == map_of(entries).remove(key).contains_key(
        k,
    ) by {
        if has_key(entries, k) && k != key {
            let p = place(entries, k);
            if p < i {
                assert(after[p].0 == k);
            } else {
                assert(after[p - 1].0 == k);
            }
        }
        if has_key(after, k) {
            let p = place(after, k);
            if p < i {
                assert(entries[p].0 == k);
            } else {
                assert(entries[p + 1].0 == k);
            }
        }
    }
    assert forall|k: K| map_of(after).contains_key(k) implies map_of(after)[k] == map_of(
        entries,
    ).remove(key)[k] by {
        let p = place(after, k);
        lemma_entry(after, p);
        if p < i {
            lemma_entry(entries, p);
        } else {
            lemma_entry(entries, p + 1);
        }
    }
    assert(map_of(after) =~= map_of(entries).remove(key));
}

} // verus!
