//! An association table over a growable vector, modelled as a map from the
//! views of its keys to its values.
//!
//! The snapshot types are built on this table. It keeps each key at most once,
//! so that its model is a map, and it looks keys up by a linear scan.

use vstd::prelude::*;

verus! {

/// A key that a [`Table`] can be indexed by.
///
/// The executable equality test must decide equality of views, and a copy of
/// a key must have the view of the key it was made from.
pub trait TableKey: View + Sized {
    /// Tells whether the two keys stand for the same value.
    fn same_key(&self, other: &Self) -> (same: bool)
        ensures
            same == (self@ == other@),
    ;

    /// Makes a second key that stands for the same value.
    fn copy_key(&self) -> (copy: Self)
        ensures
            copy@ == self@,
    ;
}

/// The views of a sequence of keys, in the same order.
pub open spec fn key_views<K: View>(keys: Seq<K>) -> Seq<K::V> {
    Seq::new(keys.len(), |i: int| keys[i]@)
}

/// The views of the keys of a sequence of entries, in the same order.
pub open spec fn entry_key_views<K: View, V>(entries: Seq<(K, V)>) -> Seq<K::V> {
    Seq::new(entries.len(), |i: int| entries[i].0@)
}

/// `keys` names every element of `dom`, names nothing else, and names
/// nothing twice.
pub open spec fn enumerates<T>(keys: Seq<T>, dom: Set<T>) -> bool {
    &&& keys.no_duplicates()
    &&& forall|k: T| keys.contains(k) <==> dom.contains(k)
}

/// `entries` holds exactly the pairs of `m`, each once.
pub open spec fn lists_entries<K: View, V>(entries: Seq<(K, V)>, m: Map<K::V, V>) -> bool {
    &&& enumerates(entry_key_views(entries), m.dom())
    &&& forall|i: int| 0 <= i < entries.len() ==> m[#[trigger] entries[i].0@] == entries[i].1
}

/// Entry `i` of `entries` exists and has the key `k`.
spec fn keyed_at<K: View, V>(entries: Seq<(K, V)>, i: int, k: K::V) -> bool {
    0 <= i < entries.len() && entries[i].0@ == k
}

/// No two entries have the same key.
spec fn distinct_keys<K: View, V>(entries: Seq<(K, V)>) -> bool {
    forall|i: int, j: int|
        0 <= i < j < entries.len() ==> (#[trigger] entries[i]).0@ != (#[trigger] entries[j]).0@
}

/// The map that a sequence of entries with distinct keys stands for.
spec fn entries_map<K: View, V>(entries: Seq<(K, V)>) -> Map<K::V, V> {
    Map::new(
        |k: K::V| exists|i: int| keyed_at(entries, i, k),
        |k: K::V| entries[choose|i: int| keyed_at(entries, i, k)].1,
    )
}

/// Each entry is found in the map under its own key.
proof fn lemma_entry_in_map<K: View, V>(entries: Seq<(K, V)>, i: int)
    requires
        distinct_keys(entries),
        0 <= i < entries.len(),
    ensures
        entries_map(entries).contains_key(entries[i].0@),
        entries_map(entries)[entries[i].0@] == entries[i].1,
{
    assert(keyed_at(entries, i, entries[i].0@));
}

/// Appending an entry under a key that is not yet present inserts it.
proof fn lemma_push_inserts<K: View, V>(entries: Seq<(K, V)>, key: K, value: V)
    requires
        distinct_keys(entries),
        !entries_map(entries).contains_key(key@),
    ensures
        distinct_keys(entries.push((key, value))),
        entries_map(entries.push((key, value))) == entries_map(entries).insert(key@, value),
{
    let after = entries.push((key, value));
    let inserted = entries_map(entries).insert(key@, value);
    assert forall|i: int, j: int| 0 <= i < j < after.len() implies (#[trigger] after[i]).0@
        != (#[trigger] after[j]).0@ by {
        if j == entries.len() {
            assert(keyed_at(entries, i, entries[i].0@));
        }
    }
    assert forall|k: K::V| entries_map(after).contains_key(k) <==> #[trigger] inserted.contains_key(
        k,
    ) by {
        if entries_map(after).contains_key(k) {
            let i = choose|i: int| keyed_at(after, i, k);
            if i < entries.len() {
                assert(keyed_at(entries, i, k));
            }
        }
        if entries_map(entries).contains_key(k) {
            let i = choose|i: int| keyed_at(entries, i, k);
            assert(keyed_at(after, i, k));
        }
        if k == key@ {
            assert(keyed_at(after, entries.len() as int, k));
        }
    }
    assert forall|k: K::V| #[trigger]
        entries_map(after).contains_key(k) implies entries_map(after)[k] == inserted[k] by {
        let i = choose|i: int| keyed_at(after, i, k);
        lemma_entry_in_map(after, i);
        if i < entries.len() {
            lemma_entry_in_map(entries, i);
        }
    }
}

/// Replacing an entry by one with the same key overwrites its value.
proof fn lemma_update_inserts<K: View, V>(entries: Seq<(K, V)>, i: int, key: K, value: V)
    requires
        distinct_keys(entries),
        keyed_at(entries, i, key@),
    ensures
        distinct_keys(entries.update(i, (key, value))),
        entries_map(entries.update(i, (key, value))) == entries_map(entries).insert(key@, value),
{
    let after = entries.update(i, (key, value));
    let inserted = entries_map(entries).insert(key@, value);
    assert(distinct_keys(after));
    assert forall|k: K::V| entries_map(after).contains_key(k) <==> #[trigger] inserted.contains_key(
        k,
    ) by {
        if entries_map(after).contains_key(k) {
            let j = choose|j: int| keyed_at(after, j, k);
            assert(keyed_at(entries, j, k));
        }
        if entries_map(entries).contains_key(k) {
            let j = choose|j: int| keyed_at(entries, j, k);
            assert(keyed_at(after, j, k));
        }
    }
    assert forall|k: K::V| #[trigger]
        entries_map(after).contains_key(k) implies entries_map(after)[k] == inserted[k] by {
        let j = choose|j: int| keyed_at(after, j, k);
        lemma_entry_in_map(after, j);
        if j != i {
            lemma_entry_in_map(entries, j);
        }
    }
}

/// Taking an entry out removes its key.
proof fn lemma_remove_removes<K: View, V>(entries: Seq<(K, V)>, i: int)
    requires
        distinct_keys(entries),
        0 <= i < entries.len(),
    ensures
        distinct_keys(entries.remove(i)),
        entries_map(entries.remove(i)) == entries_map(entries).remove(entries[i].0@),
{
    let after = entries.remove(i);
    let removed = entries_map(entries).remove(entries[i].0@);
    assert(distinct_keys(after));
    assert forall|k: K::V| entries_map(after).contains_key(k) <==> #[trigger] removed.contains_key(
        k,
    ) by {
        if entries_map(after).contains_key(k) {
            let j = choose|j: int| keyed_at(after, j, k);
            let before = if j < i { j } else { j + 1 };
            assert(keyed_at(entries, before, k));
            assert(entries[before].0@ != entries[i].0@);
        }
        if removed.contains_key(k) {
            let j = choose|j: int| keyed_at(entries, j, k);
            let now = if j < i { j } else { j - 1 };
            assert(keyed_at(after, now, k));
        }
    }
    assert forall|k: K::V| #[trigger]
        entries_map(after).contains_key(k) implies entries_map(after)[k] == removed[k] by {
        let j = choose|j: int| keyed_at(after, j, k);
        let before = if j < i { j } else { j + 1 };
        lemma_entry_in_map(after, j);
        lemma_entry_in_map(entries, before);
    }
}

/// A sequence of entries with distinct keys lists the entries of its map.
proof fn lemma_entries_listed<K: View, V>(entries: Seq<(K, V)>)
    requires
        distinct_keys(entries),
    ensures
        lists_entries(entries, entries_map(entries)),
{
    let keys = entry_key_views(entries);
    let m = entries_map(entries);
    assert(keys.no_duplicates());
    assert forall|k: K::V| keys.contains(k) <==> m.dom().contains(k) by {
        if keys.contains(k) {
            let i = choose|i: int| 0 <= i < keys.len() && keys[i] == k;
            assert(keyed_at(entries, i, k));
        }
        if m.dom().contains(k) {
            let i = choose|i: int| keyed_at(entries, i, k);
            assert(keys[i] == k);
        }
    }
    assert forall|i: int| 0 <= i < entries.len() implies m[#[trigger] entries[i].0@]
        == entries[i].1 by {
        lemma_entry_in_map(entries, i);
    }
}

/// A table from keys to values that holds each key at most once.
#[derive(Debug)]
pub struct Table<K: TableKey, V> {
    entries: Vec<(K, V)>,
}

impl<K: TableKey, V> View for Table<K, V> {
    type V = Map<K::V, V>;

    closed spec fn view(&self) -> Map<K::V, V> {
        entries_map(self.entries@)
    }
}

impl<K: TableKey, V> Table<K, V> {
    #[verifier::type_invariant]
    spec fn well_formed(self) -> bool {
        distinct_keys(self.entries@)
    }

    /// Makes a table that holds nothing.
    pub fn new() -> (table: Self)
        ensures
            table@ == Map::<K::V, V>::empty(),
    {
        let table = Table { entries: Vec::new() };
        assert(table@ =~= Map::<K::V, V>::empty());
        table
    }

    /// Tells whether the table holds nothing.
    pub fn is_empty(&self) -> (empty: bool)
        ensures
            empty == self@.is_empty(),
    {
        let empty = self.entries.len() == 0;
        proof {
            use_type_invariant(self);
            if !empty {
                lemma_entry_in_map(self.entries@, 0);
            }
        }
        empty
    }

    /// The place of the entry with this key, if there is one.
    fn position(&self, key: &K) -> (found: Option<usize>)
        ensures
            match found {
                Some(i) => keyed_at(self.entries@, i as int, key@),
                None => !self@.contains_key(key@),
            },
    {
        let mut i: usize = 0;
        while i < self.entries.len()
            invariant
                i <= self.entries.len(),
                forall|j: int| 0 <= j < i ==> !keyed_at(self.entries@, j, key@),
            decreases self.entries.len() - i,
        {
            if self.entries[i].0.same_key(key) {
                return Some(i);
            }
            i += 1;
        }
        None
    }

    /// Sets the value under `key`, whether or not the key was present.
    pub fn insert(&mut self, key: K, value: V)
        ensures
            final(self)@ == old(self)@.insert(key@, value),
    {
        proof {
            use_type_invariant(&*self);
        }
        let found = self.position(&key);
        let mut entries: Vec<(K, V)> = Vec::new();
        std::mem::swap(&mut entries, &mut self.entries);
        match found {
            Some(i) => {
                proof {
                    lemma_update_inserts(entries@, i as int, key, value);
                }
                entries.set(i, (key, value));
            },
            None => {
                proof {
                    lemma_push_inserts(entries@, key, value);
                }
                entries.push((key, value));
            },
        }
        self.entries = entries;
    }

    /// Takes the value under `key` out of the table, if the key is present.
    pub fn remove(&mut self, key: &K) -> (removed: Option<V>)
        ensures
            final(self)@ == old(self)@.remove(key@),
            removed == if old(self)@.contains_key(key@) {
                Some(old(self)@[key@])
            } else {
                None::<V>
            },
    {
        proof {
            use_type_invariant(&*self);
        }
        match self.position(key) {
            Some(i) => {
                let mut entries: Vec<(K, V)> = Vec::new();
                std::mem::swap(&mut entries, &mut self.entries);
                proof {
                    lemma_entry_in_map(entries@, i as int);
                    lemma_remove_removes(entries@, i as int);
                }
                let entry = entries.remove(i);
                self.entries = entries;
                Some(entry.1)
            },
            None => None,
        }
    }

    /// Copies of the keys that are present, each once, in no promised order.
    pub fn keys(&self) -> (keys: Vec<K>)
        ensures
            enumerates(key_views(keys@), self@.dom()),
    {
        let mut keys: Vec<K> = Vec::new();
        let mut i: usize = 0;
        while i < self.entries.len()
            invariant
                i <= self.entries.len(),
                keys@.len() == i,
                forall|j: int| 0 <= j < i ==> (#[trigger] keys@[j])@ == self.entries@[j].0@,
            decreases self.entries.len() - i,
        {
            keys.push(self.entries[i].0.copy_key());
            i += 1;
        }
        proof {
            use_type_invariant(self);
            lemma_entries_listed(self.entries@);
            assert(key_views(keys@) =~= entry_key_views(self.entries@));
        }
        keys
    }

    /// Hands out the entries, each once, in no promised order.
    pub fn into_entries(self) -> (entries: Vec<(K, V)>)
        ensures
            lists_entries(entries@, self@),
    {
        proof {
            use_type_invariant(&self);
            lemma_entries_listed(self.entries@);
        }
        self.entries
    }
}

} // verus!
