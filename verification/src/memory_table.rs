//! A table kept in memory: values under integer keys, one value per key.
//!
//! The table is a vector of entries in which no key occurs twice. Contracts
//! speak of it as the map from key to value.

use vstd::prelude::*;

verus! {

/// Whether some entry carries `key`.
pub open spec fn has_key<T>(entries: Seq<(i32, T)>, key: i32) -> bool {
    exists|i: int| 0 <= i < entries.len() && (#[trigger] entries[i]).0 == key
}

/// The position of an entry that carries `key`, where there is one.
pub open spec fn key_index<T>(entries: Seq<(i32, T)>, key: i32) -> int {
    choose|i: int| 0 <= i < entries.len() && (#[trigger] entries[i]).0 == key
}

/// No two entries carry the same key.
pub open spec fn distinct_keys<T>(entries: Seq<(i32, T)>) -> bool {
    forall|i: int, j: int|
        0 <= i < j < entries.len() ==> (#[trigger] entries[i]).0 != (#[trigger] entries[j]).0
}

/// The map that a sequence of entries stands for.
pub open spec fn map_of<T>(entries: Seq<(i32, T)>) -> Map<i32, T> {
    Map::new(|key: i32| has_key(entries, key), |key: i32| entries[key_index(entries, key)].1)
}

/// Each entry of a sequence with distinct keys is found again under its key.
pub proof fn lemma_entry_is_mapped<T>(entries: Seq<(i32, T)>, i: int)
    requires
        distinct_keys(entries),
        0 <= i < entries.len(),
    ensures
        has_key(entries, entries[i].0),
        key_index(entries, entries[i].0) == i,
        map_of(entries).contains_pair(entries[i].0, entries[i].1),
{
}

/// Appending an entry under a fresh key inserts it into the map.
pub proof fn lemma_push_inserts<T>(entries: Seq<(i32, T)>, key: i32, value: T)
    requires
        distinct_keys(entries),
        !has_key(entries, key),
    ensures
        distinct_keys(entries.push((key, value))),
        map_of(entries.push((key, value))) == map_of(entries).insert(key, value),
{
    let longer = entries.push((key, value));
    assert forall|k: i32| has_key(longer, k) <==> (k == key || has_key(entries, k)) by {
        if has_key(entries, k) {
            assert(longer[key_index(entries, k)].0 == k);
        }
        if k == key {
            assert(longer[entries.len() as int].0 == k);
        }
    }
    assert forall|k: i32| has_key(longer, k) implies #[trigger] map_of(longer)[k] == map_of(
        entries,
    ).insert(key, value)[k] by {
        let i = key_index(longer, k);
        lemma_entry_is_mapped(longer, i);
        if i < entries.len() {
            lemma_entry_is_mapped(entries, i);
        }
    }
}

/// Overwriting the value of an entry overwrites it in the map.
pub proof fn lemma_update_inserts<T>(entries: Seq<(i32, T)>, at: int, value: T)
    requires
        distinct_keys(entries),
        0 <= at < entries.len(),
    ensures
        distinct_keys(entries.update(at, (entries[at].0, value))),
        map_of(entries.update(at, (entries[at].0, value))) == map_of(entries).insert(
            entries[at].0,
            value,
        ),
{
    let key = entries[at].0;
    let changed = entries.update(at, (key, value));
    assert forall|k: i32| has_key(changed, k) <==> has_key(entries, k) by {
        if has_key(entries, k) {
            assert(changed[key_index(entries, k)].0 == k);
        }
    }
    lemma_entry_is_mapped(entries, at);
    assert forall|k: i32| has_key(changed, k) implies #[trigger] map_of(changed)[k] == map_of(
        entries,
    ).insert(key, value)[k] by {
        let i = key_index(changed, k);
        lemma_entry_is_mapped(changed, i);
        if i != at {
            lemma_entry_is_mapped(entries, i);
        }
    }
}

/// Dropping an entry removes its key from the map.
pub proof fn lemma_remove_removes<T>(entries: Seq<(i32, T)>, at: int)
    requires
        distinct_keys(entries),
        0 <= at < entries.len(),
    ensures
        distinct_keys(entries.remove(at)),
        map_of(entries.remove(at)) == map_of(entries).remove(entries[at].0),
{
    let key = entries[at].0;
    let shorter = entries.remove(at);
    assert forall|i: int| 0 <= i < shorter.len() implies #[trigger] shorter[i] == entries[if i
        < at {
        i
    } else {
        i + 1
    }] by {}
    assert forall|k: i32| has_key(shorter, k) <==> (k != key && has_key(entries, k)) by {
        if k != key && has_key(entries, k) {
            let i = key_index(entries, k);
            assert(shorter[if i < at { i } else { i - 1 }].0 == k);
        }
    }
    assert forall|k: i32| has_key(shorter, k) implies #[trigger] map_of(shorter)[k] == map_of(
        entries,
    ).remove(key)[k] by {
        let i = key_index(shorter, k);
        lemma_entry_is_mapped(shorter, i);
        lemma_entry_is_mapped(entries, if i < at { i } else { i + 1 });
    }
}

/// Values under integer keys, at most one per key.
pub struct MemoryTable<T> {
    entries: Vec<(i32, T)>,
}

impl<T> View for MemoryTable<T> {
    type V = Map<i32, T>;

    open spec fn view(&self) -> Map<i32, T> {
        map_of(self.entries())
    }
}

impl<T> MemoryTable<T> {
    /// The entries in the order in which they are kept.
    pub closed spec fn entries(&self) -> Seq<(i32, T)> {
        self.entries@
    }

    /// No key occurs twice. Every operation keeps it so.
    pub open spec fn wf(&self) -> bool {
        distinct_keys(self.entries())
    }

    /// An empty table.
    pub fn new() -> (table: Self)
        ensures
            table.wf(),
            table.entries() == Seq::<(i32, T)>::empty(),
            table@ == Map::<i32, T>::empty(),
    {
        let table = MemoryTable { entries: Vec::new() };
        table
    }

    /// The number of entries.
    pub fn len(&self) -> (n: usize)
        ensures
            n == self.entries().len(),
    {
        self.entries.len()
    }

    /// The entry at position `at`.
    pub fn entry_at(&self, at: usize) -> (entry: &(i32, T))
        requires
            at < self.entries().len(),
        ensures
            *entry == self.entries()[at as int],
    {
        &self.entries[at]
    }

    /// The first position at which `key` is kept, if it is kept.
    pub fn position(&self, key: i32) -> (found: Option<usize>)
        ensures
            found matches Some(at) ==> {
                &&& at < self.entries().len()
                &&& self.entries()[at as int].0 == key
                &&& forall|i: int| 0 <= i < at ==> (#[trigger] self.entries()[i]).0 != key
            },
            found is None ==> !has_key(self.entries(), key),
    {
        let mut at: usize = 0;
        while at < self.entries.len()
            invariant
                at <= self.entries@.len(),
                forall|i: int| 0 <= i < at ==> (#[trigger] self.entries@[i]).0 != key,
            decreases self.entries@.len() - at,
        {
            if self.entries[at].0 == key {
                return Some(at);
            }
            at = at + 1;
        }
        None
    }

    /// The value under `key`, if there is one.
    pub fn get(&self, key: i32) -> (found: Option<&T>)
        requires
            self.wf(),
        ensures
            found matches Some(value) ==> self@.contains_pair(key, *value),
            found is None ==> !self@.dom().contains(key),
    {
        match self.position(key) {
            Some(at) => {
                proof {
                    lemma_entry_is_mapped(self.entries@, at as int);
                }
                Some(&self.entries[at].1)
            },
            None => None,
        }
    }

    /// Writes `value` under `key`: over what was there, in its place, or
    /// else as a new last entry.
    pub fn put(&mut self, key: i32, value: T)
        requires
            old(self).wf(),
        ensures
            final(self).wf(),
            final(self)@ == old(self)@.insert(key, value),
            final(self).entries() == if has_key(old(self).entries(), key) {
                old(self).entries().update(key_index(old(self).entries(), key), (key, value))
            } else {
                old(self).entries().push((key, value))
            },
    {
        match self.position(key) {
            Some(at) => {
                proof {
                    lemma_entry_is_mapped(self.entries@, at as int);
                    lemma_update_inserts(self.entries@, at as int, value);
                }
                self.entries.set(at, (key, value));
            },
            None => {
                proof {
                    lemma_push_inserts(self.entries@, key, value);
                }
                self.entries.push((key, value));
            },
        }
    }

    /// Removes the entry under `key`; the others keep their order. Where
    /// there is none, nothing changes.
    pub fn remove(&mut self, key: i32)
        requires
            old(self).wf(),
        ensures
            final(self).wf(),
            final(self)@ == old(self)@.remove(key),
            final(self).entries() == if has_key(old(self).entries(), key) {
                old(self).entries().remove(key_index(old(self).entries(), key))
            } else {
                old(self).entries()
            },
    {
        match self.position(key) {
            Some(at) => {
                proof {
                    lemma_entry_is_mapped(self.entries@, at as int);
                    lemma_remove_removes(self.entries@, at as int);
                }
                self.entries.remove(at);
            },
            None => {},
        }
    }
}

} // verus!
