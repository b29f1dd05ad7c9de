//! A small map that keeps its entries in the order of their first insertion.

use vstd::prelude::*;

verus! {

/// A key of a [`Table`]: it is compared by its view.
pub trait Key: View + Sized {
    /// Whether both keys have one view.
    fn same(&self, other: &Self) -> (same: bool)
        ensures
            same == (self@ == other@),
    ;
}

impl Key for String {
    fn same(&self, other: &Self) -> (same: bool) {
        *self == *other
    }
}

/// A map from keys to values.
#[derive(Debug)]
pub struct Table<K, V> {
    pub entries: Vec<(K, V)>,
}

/// Whether no key occurs twice.
pub open spec fn distinct_keys<K: View, V>(entries: Seq<(K, V)>) -> bool {
    forall|i: int, j: int|
        0 <= i < j < entries.len() ==> (#[trigger] entries[i]).0@ != (#[trigger] entries[j]).0@
}

/// Whether `k` is the key at `i`.
pub open spec fn key_at<K: View, V>(entries: Seq<(K, V)>, i: int, k: K::V) -> bool {
    0 <= i < entries.len() && entries[i].0@ == k
}

/// The map that a list of entries stands for.
pub open spec fn as_map<K: View, V>(entries: Seq<(K, V)>) -> Map<K::V, V> {
    Map::new(
        |k: K::V| exists|i: int| key_at(entries, i, k),
        |k: K::V| entries[choose|i: int| key_at(entries, i, k)].1,
    )
}

/// An entry of a table is what the map holds under its key.
pub proof fn lemma_entry<K: View, V>(entries: Seq<(K, V)>, i: int)
    requires
        distinct_keys(entries),
        0 <= i < entries.len(),
    ensures
        as_map(entries).contains_key(entries[i].0@),
        as_map(entries)[entries[i].0@] == entries[i].1,
{
    assert(key_at(entries, i, entries[i].0@));
    let j = choose|j: int| key_at(entries, j, entries[i].0@);
    assert(entries[j].0@ == entries[i].0@);
    assert(i == j);
}

/// Writing a new value under a key that is there changes the map at that key alone.
pub proof fn lemma_update<K: View, V>(entries: Seq<(K, V)>, i: int, e: (K, V))
    requires
        distinct_keys(entries),
        0 <= i < entries.len(),
        e.0@ == entries[i].0@,
    ensures
        distinct_keys(entries.update(i, e)),
        as_map(entries.update(i, e)) == as_map(entries).insert(e.0@, e.1),
{
    let after = entries.update(i, e);
    assert(distinct_keys(after));
    assert forall|k: K::V| #[trigger]
        as_map(after).contains_key(k) == as_map(entries).insert(e.0@, e.1).contains_key(k) by {
        if as_map(after).contains_key(k) {
            let j = choose|j: int| key_at(after, j, k);
            assert(key_at(entries, j, k));
        }
        if as_map(entries).contains_key(k) {
            let j = choose|j: int| key_at(entries, j, k);
            assert(key_at(after, j, k));
        }
        assert(key_at(after, i, e.0@));
    }
    assert forall|k: K::V| as_map(after).contains_key(k) implies #[trigger] as_map(after)[k]
        == as_map(entries).insert(e.0@, e.1)[k] by {
        let j = choose|j: int| key_at(after, j, k);
        lemma_entry(after, j);
        lemma_entry(entries, j);
        if k == e.0@ {
            assert(i == j);
        }
    }
    assert(as_map(after) =~= as_map(entries).insert(e.0@, e.1));
}

/// A new key at the end is a new key of the map.
pub proof fn lemma_push<K: View, V>(entries: Seq<(K, V)>, e: (K, V))
    requires
        distinct_keys(entries),
        forall|i: int| 0 <= i < entries.len() ==> (#[trigger] entries[i]).0@ != e.0@,
    ensures
        distinct_keys(entries.push(e)),
        as_map(entries.push(e)) == as_map(entries).insert(e.0@, e.1),
{
    let after = entries.push(e);
    assert(distinct_keys(after));
    assert forall|k: K::V| #[trigger]
        as_map(after).contains_key(k) == as_map(entries).insert(e.0@, e.1).contains_key(k) by {
        if as_map(after).contains_key(k) {
            let j = choose|j: int| key_at(after, j, k);
            if j < entries.len() {
                assert(key_at(entries, j, k));
            }
        }
        if as_map(entries).contains_key(k) {
            let j = choose|j: int| key_at(entries, j, k);
            assert(key_at(after, j, k));
        }
        assert(key_at(after, entries.len() as int, e.0@));
    }
    assert forall|k: K::V| as_map(after).contains_key(k) implies #[trigger] as_map(after)[k]
        == as_map(entries).insert(e.0@, e.1)[k] by {
        let j = choose|j: int| key_at(after, j, k);
        lemma_entry(after, j);
        if j < entries.len() {
            lemma_entry(entries, j);
        }
    }
    assert(as_map(after) =~= as_map(entries).insert(e.0@, e.1));
}

impl<K: Key, V> Table<K, V> {
    /// No key occurs twice.
    pub open spec fn wf(self) -> bool {
        distinct_keys(self.entries@)
    }

    /// The map from the views of the keys.
    pub open spec fn view(self) -> Map<K::V, V> {
        as_map(self.entries@)
    }

    /// A table without entries.
    pub fn new() -> (table: Self)
        ensures
            table.wf(),
            table.entries@.len() == 0,
            table@ == Map::<K::V, V>::empty(),
    {
        let table: Table<K, V> = Table { entries: Vec::new() };
        assert(table@ =~= Map::<K::V, V>::empty());
        table
    }

    /// Where `key` stands, if it is there.
    pub fn position(&self, key: &K) -> (found: Option<usize>)
        ensures
            match found {
                Some(i) => i < self.entries@.len() && self.entries@[i as int].0@ == key@,
                None => forall|i: int|
                    0 <= i < self.entries@.len() ==> (#[trigger] self.entries@[i]).0@ != key@,
            },
            found is Some <==> self@.contains_key(key@),
    {
        let mut i: usize = 0;
        while i < self.entries.len()
            invariant
                i <= self.entries@.len(),
                forall|j: int| 0 <= j < i ==> (#[trigger] self.entries@[j]).0@ != key@,
            decreases self.entries@.len() - i,
        {
            if self.entries[i].0.same(key) {
                assert(key_at(self.entries@, i as int, key@));
                return Some(i);
            }
            i += 1;
        }
        None
    }

    /// The value under `key`.
    pub fn get(&self, key: &K) -> (value: Option<&V>)
        requires
            self.wf(),
        ensures
            match value {
                Some(v) => self@.contains_key(key@) && *v == self@[key@],
                None => !self@.contains_key(key@),
            },
    {
        match self.position(key) {
            Some(i) => {
                proof {
                    lemma_entry(self.entries@, i as int);
                }
                Some(&self.entries[i].1)
            },
            None => None,
        }
    }

    /// Puts `value` under `key`, in the place of what was there.
    pub fn insert(&mut self, key: K, value: V)
        requires
            old(self).wf(),
        ensures
            final(self).wf(),
            final(self)@ == old(self)@.insert(key@, value),
            !old(self)@.contains_key(key@) ==> final(self).entries@ == old(self).entries@.push(
                (key, value),
            ),
    {
        match self.position(&key) {
            Some(i) => {
                proof {
                    lemma_update(self.entries@, i as int, (key, value));
                }
                self.entries.set(i, (key, value));
            },
            None => {
                proof {
                    lemma_push(self.entries@, (key, value));
                }
                self.entries.push((key, value));
            },
        }
    }
}

} // verus!
