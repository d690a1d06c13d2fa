//! A small map keyed by text, kept as a list in which no key occurs twice.

use crate::text::str_equal;
use vstd::prelude::*;

verus! {

/// A key and what it maps to.
#[derive(Debug)]
pub struct Entry<V> {
    pub key: String,
    pub value: V,
}

/// No key occurs twice among `entries`.
pub open spec fn distinct_keys<V>(entries: Seq<Entry<V>>) -> bool {
    forall|i: int, j: int|
        0 <= i < entries.len() && 0 <= j < entries.len() && i != j ==> entries[i].key@
            != entries[j].key@
}

/// Whether some entry has the key.
pub open spec fn has_key<V>(entries: Seq<Entry<V>>, key: Seq<char>) -> bool {
    exists|i: int| 0 <= i < entries.len() && #[trigger] entries[i].key@ == key
}

/// The index of an entry with the key, where there is one.
pub open spec fn index_of<V>(entries: Seq<Entry<V>>, key: Seq<char>) -> int {
    choose|i: int| 0 <= i < entries.len() && #[trigger] entries[i].key@ == key
}

/// The keys of a list of entries, in their order.
pub open spec fn keys_of<V>(entries: Seq<Entry<V>>) -> Seq<Seq<char>> {
    entries.map_values(|e: Entry<V>| e.key@)
}

/// The keys but `key`, in their order, where no key occurs twice.
pub open spec fn without_key(keys: Seq<Seq<char>>, key: Seq<char>) -> Seq<Seq<char>> {
    if keys.contains(key) {
        keys.remove(keys.index_of(key))
    } else {
        keys
    }
}

/// The map that a list of entries stands for.
pub open spec fn map_of<V>(entries: Seq<Entry<V>>) -> Map<Seq<char>, V> {
    Map::new(
        |key: Seq<char>| has_key(entries, key),
        |key: Seq<char>| entries[index_of(entries, key)].value,
    )
}

/// Where keys are distinct, the index of an entry's key is that entry's index.
pub proof fn lemma_index_of<V>(entries: Seq<Entry<V>>, i: int)
    requires
        distinct_keys(entries),
        0 <= i < entries.len(),
    ensures
        has_key(entries, entries[i].key@),
        index_of(entries, entries[i].key@) == i,
        map_of(entries)[entries[i].key@] == entries[i].value,
{
    assert(entries[i].key@ == entries[i].key@);
}

/// A new key at the end adds one mapping.
pub proof fn lemma_push<V>(entries: Seq<Entry<V>>, entry: Entry<V>)
    requires
        distinct_keys(entries),
        !has_key(entries, entry.key@),
    ensures
        distinct_keys(entries.push(entry)),
        map_of(entries.push(entry)) == map_of(entries).insert(entry.key@, entry.value),
{
    let after = entries.push(entry);
    assert forall|i: int, j: int|
        0 <= i < after.len() && 0 <= j < after.len() && i != j implies after[i].key@
        != after[j].key@ by {
        if i < entries.len() {
            assert(entries[i].key@ == after[i].key@);
        }
        if j < entries.len() {
            assert(entries[j].key@ == after[j].key@);
        }
    }
    assert forall|key: Seq<char>|
        has_key(after, key) <==> (key == entry.key@ || has_key(entries, key)) by {
        if has_key(after, key) {
            let i = index_of(after, key);
            if i < entries.len() {
                assert(entries[i].key@ == key);
            }
        }
        if key == entry.key@ {
            assert(after[entries.len() as int].key@ == key);
        }
        if has_key(entries, key) {
            let i = index_of(entries, key);
            assert(after[i].key@ == key);
        }
    }
    assert forall|key: Seq<char>| has_key(after, key) implies #[trigger] map_of(after)[key]
        == map_of(entries).insert(entry.key@, entry.value)[key] by {
        let i = index_of(after, key);
        lemma_index_of(after, i);
        if i < entries.len() {
            assert(entries[i].key@ == key);
            lemma_index_of(entries, i);
        }
    }
    assert(map_of(after) =~= map_of(entries).insert(entry.key@, entry.value));
}

/// A new value in an entry's place changes that one mapping.
pub proof fn lemma_update<V>(entries: Seq<Entry<V>>, i: int, entry: Entry<V>)
    requires
        distinct_keys(entries),
        0 <= i < entries.len(),
        entry.key@ == entries[i].key@,
    ensures
        distinct_keys(entries.update(i, entry)),
        map_of(entries.update(i, entry)) == map_of(entries).insert(entry.key@, entry.value),
{
    let after = entries.update(i, entry);
    assert forall|a: int, b: int|
        0 <= a < after.len() && 0 <= b < after.len() && a != b implies after[a].key@
        != after[b].key@ by {
        assert(after[a].key@ == entries[a].key@);
        assert(after[b].key@ == entries[b].key@);
    }
    assert forall|key: Seq<char>| has_key(after, key) <==> has_key(entries, key) by {
        if has_key(after, key) {
            let a = index_of(after, key);
            assert(entries[a].key@ == key);
        }
        if has_key(entries, key) {
            let a = index_of(entries, key);
            assert(after[a].key@ == key);
        }
    }
    lemma_index_of(entries, i);
    assert forall|key: Seq<char>| has_key(after, key) implies #[trigger] map_of(after)[key]
        == map_of(entries).insert(entry.key@, entry.value)[key] by {
        let a = index_of(after, key);
        lemma_index_of(after, a);
        assert(entries[a].key@ == key);
        lemma_index_of(entries, a);
    }
    assert(map_of(after) =~= map_of(entries).insert(entry.key@, entry.value));
}

/// Taking an entry out takes its mapping out.
pub proof fn lemma_remove<V>(entries: Seq<Entry<V>>, i: int)
    requires
        distinct_keys(entries),
        0 <= i < entries.len(),
    ensures
        distinct_keys(entries.remove(i)),
        map_of(entries.remove(i)) == map_of(entries).remove(entries[i].key@),
{
    let after = entries.remove(i);
    let gone = entries[i].key@;
    assert forall|a: int| 0 <= a < after.len() implies #[trigger] after[a] == entries[if a < i {
        a
    } else {
        a + 1
    }] by {}
    assert forall|a: int, b: int|
        0 <= a < after.len() && 0 <= b < after.len() && a != b implies after[a].key@
        != after[b].key@ by {
        assert(after[a] == entries[if a < i { a } else { a + 1 }]);
        assert(after[b] == entries[if b < i { b } else { b + 1 }]);
    }
    assert forall|key: Seq<char>|
        has_key(after, key) <==> (key != gone && has_key(entries, key)) by {
        if has_key(after, key) {
            let a = index_of(after, key);
            let from = if a < i { a } else { a + 1 };
            assert(after[a] == entries[from]);
            assert(entries[from].key@ == key);
        }
        if key != gone && has_key(entries, key) {
            let a = index_of(entries, key);
            let to = if a < i { a } else { a - 1 };
            assert(after[to] == entries[a]);
            assert(after[to].key@ == key);
        }
    }
    assert forall|key: Seq<char>| has_key(after, key) implies #[trigger] map_of(after)[key]
        == map_of(entries).remove(gone)[key] by {
        let a = index_of(after, key);
        lemma_index_of(after, a);
        let from = if a < i { a } else { a + 1 };
        assert(after[a] == entries[from]);
        lemma_index_of(entries, from);
    }
    assert(map_of(after) =~= map_of(entries).remove(gone));
}

/// A map from text to values of one type.
#[derive(Debug)]
pub struct TextMap<V> {
    entries: Vec<Entry<V>>,
}

impl<V> TextMap<V> {
    #[verifier::type_invariant]
    spec fn well_formed(&self) -> bool {
        distinct_keys(self.entries@)
    }

    /// The entries in the order in which their keys were first inserted.
    pub closed spec fn entries(&self) -> Seq<Entry<V>> {
        self.entries@
    }

    /// The map that this value stands for.
    pub open spec fn map(&self) -> Map<Seq<char>, V> {
        map_of(self.entries())
    }

    /// The keys in the order in which they were first inserted.
    pub open spec fn keys(&self) -> Seq<Seq<char>> {
        keys_of(self.entries())
    }

    /// The empty map.
    pub fn new() -> (r: Self)
        ensures
            r.entries() == Seq::<Entry<V>>::empty(),
            r.map() == Map::<Seq<char>, V>::empty(),
    {
        let r = TextMap { entries: Vec::new() };
        assert(r.map() =~= Map::<Seq<char>, V>::empty());
        r
    }

    /// How many keys the map has. No key occurs twice among the entries.
    pub fn len(&self) -> (n: usize)
        ensures
            n == self.entries().len(),
            distinct_keys(self.entries()),
    {
        proof {
            use_type_invariant(self);
        }
        self.entries.len()
    }

    /// The key of the entry at `index`.
    pub fn key_at(&self, index: usize) -> (key: &str)
        requires
            index < self.entries().len(),
        ensures
            key@ == self.entries()[index as int].key@,
            self.map().contains_key(key@),
    {
        proof {
            use_type_invariant(self);
            lemma_index_of(self.entries@, index as int);
        }
        self.entries[index].key.as_str()
    }

    /// The value of the entry at `index`.
    pub fn value_at(&self, index: usize) -> (value: &V)
        requires
            index < self.entries().len(),
        ensures
            *value == self.entries()[index as int].value,
            self.map()[self.entries()[index as int].key@] == *value,
    {
        proof {
            use_type_invariant(self);
            lemma_index_of(self.entries@, index as int);
        }
        &self.entries[index].value
    }

    /// The index of the entry for `key`, if the map has the key.
    fn position(&self, key: &str) -> (r: Option<usize>)
        ensures
            r matches Some(i) ==> i < self.entries().len() && self.entries()[i as int].key@
                == key@,
            r is None ==> !has_key(self.entries(), key@),
    {
        let mut i: usize = 0;
        while i < self.entries.len()
            invariant
                i <= self.entries.len(),
                forall|j: int| 0 <= j < i ==> self.entries[j].key@ != key@,
            decreases self.entries.len() - i,
        {
            if str_equal(self.entries[i].key.as_str(), key) {
                return Some(i);
            }
            i += 1;
        }
        None
    }

    /// The value for `key`, if the map has the key.
    pub fn get(&self, key: &str) -> (r: Option<&V>)
        ensures
            r is Some == self.map().contains_key(key@),
            r matches Some(value) ==> self.map()[key@] == *value,
    {
        proof {
            use_type_invariant(self);
        }
        match self.position(key) {
            Some(i) => {
                proof {
                    lemma_index_of(self.entries@, i as int);
                }
                Some(&self.entries[i].value)
            },
            None => None,
        }
    }

    /// Maps `key` to `value`, in place of what it mapped to before. A key that
    /// the map has keeps its place, and a new key comes last.
    pub fn insert(&mut self, key: &str, value: V)
        ensures
            final(self).map() == old(self).map().insert(key@, value),
            final(self).keys() == (if old(self).keys().contains(key@) {
                old(self).keys()
            } else {
                old(self).keys().push(key@)
            }),
    {
        proof {
            use_type_invariant(&*self);
        }
        let entry = Entry { key: key.to_owned(), value };
        let found = self.position(key);
        let mut entries: Vec<Entry<V>> = Vec::new();
        core::mem::swap(&mut self.entries, &mut entries);
        let ghost before = entries@;
        match found {
            Some(i) => {
                proof {
                    lemma_update(entries@, i as int, entry);
                    assert(keys_of(before)[i as int] == key@);
                    assert(keys_of(before.update(i as int, entry)) =~= keys_of(before));
                }
                entries.set(i, entry);
            },
            None => {
                proof {
                    lemma_push(entries@, entry);
                    assert(!keys_of(before).contains(key@)) by {
                        if keys_of(before).contains(key@) {
                            let j = choose|j: int|
                                0 <= j < keys_of(before).len() && keys_of(before)[j] == key@;
                            assert(before[j].key@ == key@);
                        }
                    }
                    assert(keys_of(before.push(entry)) =~= keys_of(before).push(key@));
                }
                entries.push(entry);
            },
        }
        self.entries = entries;
    }

    /// Takes `key` out of the map, if it is there. The other keys keep their order.
    pub fn remove(&mut self, key: &str)
        ensures
            final(self).map() == old(self).map().remove(key@),
            final(self).keys() == without_key(old(self).keys(), key@),
    {
        proof {
            use_type_invariant(&*self);
        }
        match self.position(key) {
            Some(i) => {
                let mut entries: Vec<Entry<V>> = Vec::new();
                core::mem::swap(&mut self.entries, &mut entries);
                proof {
                    lemma_remove(entries@, i as int);
                    let keys = keys_of(entries@);
                    assert(keys[i as int] == key@);
                    assert(keys.contains(key@));
                    let first = keys.index_of(key@);
                    assert(entries@[first].key@ == key@);
                    assert(first == i);
                    assert(keys_of(entries@.remove(i as int)) =~= keys.remove(i as int));
                }
                entries.remove(i);
                self.entries = entries;
            },
            None => {
                assert(self.map().remove(key@) =~= self.map());
                assert(!self.keys().contains(key@)) by {
                    if self.keys().contains(key@) {
                        let j = choose|j: int| 0 <= j < self.keys().len() && self.keys()[j] == key@;
                        assert(self.entries()[j].key@ == key@);
                    }
                }
            },
        }
    }
}

} // verus!
