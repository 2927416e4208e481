//! A mapping keyed by text that remembers the order in which keys arrived.
//!
//! Inserting under a key that is already present replaces the value in place;
//! the key keeps its position.

use vstd::prelude::*;

verus! {

/// One key with its value.
pub struct Entry<V> {
    pub key: String,
    pub value: V,
}

/// The mapping that a list of entries stands for: later entries win.
pub open spec fn fold_entries<V>(entries: Seq<Entry<V>>) -> Map<Seq<char>, V>
    decreases entries.len(),
{
    if entries.len() == 0 {
        Map::empty()
    } else {
        fold_entries(entries.drop_last()).insert(entries.last().key@, entries.last().value)
    }
}

/// No two entries share a key.
pub open spec fn distinct_keys<V>(entries: Seq<Entry<V>>) -> bool {
    forall|i: int, j: int| 0 <= i < j < entries.len() ==> entries[i].key@ != entries[j].key@
}

/// The keys of a list of entries, in order.
pub open spec fn entry_keys<V>(entries: Seq<Entry<V>>) -> Seq<Seq<char>> {
    Seq::new(entries.len(), |i: int| entries[i].key@)
}

proof fn lemma_fold_absent<V>(entries: Seq<Entry<V>>, key: Seq<char>)
    requires
        forall|j: int| 0 <= j < entries.len() ==> entries[j].key@ != key,
    ensures
        !fold_entries(entries).contains_key(key),
    decreases entries.len(),
{
    if entries.len() > 0 {
        lemma_fold_absent(entries.drop_last(), key);
    }
}

proof fn lemma_fold_present<V>(entries: Seq<Entry<V>>, i: int)
    requires
        distinct_keys(entries),
        0 <= i < entries.len(),
    ensures
        fold_entries(entries).contains_key(entries[i].key@),
        fold_entries(entries)[entries[i].key@] == entries[i].value,
    decreases entries.len(),
{
    if i < entries.len() - 1 {
        lemma_fold_present(entries.drop_last(), i);
    }
}

proof fn lemma_fold_replace<V>(entries: Seq<Entry<V>>, i: int, entry: Entry<V>)
    requires
        distinct_keys(entries),
        0 <= i < entries.len(),
        entry.key@ == entries[i].key@,
    ensures
        distinct_keys(entries.update(i, entry)),
        fold_entries(entries.update(i, entry)) == fold_entries(entries).insert(
            entry.key@,
            entry.value,
        ),
        entry_keys(entries.update(i, entry)) == entry_keys(entries),
    decreases entries.len(),
{
    let after = entries.update(i, entry);
    assert(entry_keys(after) =~= entry_keys(entries));
    if i == entries.len() - 1 {
        assert(after.drop_last() =~= entries.drop_last());
        assert(fold_entries(after) =~= fold_entries(entries).insert(entry.key@, entry.value));
    } else {
        lemma_fold_replace(entries.drop_last(), i, entry);
        assert(after.drop_last() =~= entries.drop_last().update(i, entry));
        assert(entries.last().key@ != entry.key@);
        assert(fold_entries(after) =~= fold_entries(entries).insert(entry.key@, entry.value));
    }
}

/// An insertion-ordered mapping from text keys to values.
pub struct TitleMap<V> {
    entries: Vec<Entry<V>>,
}

impl<V> TitleMap<V> {
    /// The mapping itself: each key with its value.
    pub closed spec fn view(&self) -> Map<Seq<char>, V> {
        fold_entries(self.entries@)
    }

    /// The keys in the order in which they were first inserted.
    pub closed spec fn keys(&self) -> Seq<Seq<char>> {
        entry_keys(self.entries@)
    }

    /// Every key is held once.
    pub closed spec fn wf(&self) -> bool {
        distinct_keys(self.entries@)
    }

    /// The keys listed are exactly the keys mapped, each listed once.
    pub proof fn lemma_keys(&self)
        requires
            self.wf(),
        ensures
            self.keys().no_duplicates(),
            forall|key: Seq<char>| self@.contains_key(key) <==> self.keys().contains(key),
    {
        let entries = self.entries@;
        assert forall|key: Seq<char>| self@.contains_key(key) <==> self.keys().contains(
            key,
        ) by {
            if self.keys().contains(key) {
                let i = choose|i: int| 0 <= i < self.keys().len() && self.keys()[i] == key;
                lemma_fold_present(entries, i);
            } else {
                assert forall|j: int| 0 <= j < entries.len() implies entries[j].key@ != key by {
                    assert(self.keys()[j] == entries[j].key@);
                }
                lemma_fold_absent(entries, key);
            }
        }
    }

    /// A mapping without entries.
    pub fn new() -> (result: Self)
        ensures
            result.wf(),
            result@ == Map::<Seq<char>, V>::empty(),
            result.keys() == Seq::<Seq<char>>::empty(),
    {
        let result = TitleMap { entries: Vec::new() };
        assert(result.keys() =~= Seq::<Seq<char>>::empty());
        result
    }

    /// The number of keys.
    pub fn len(&self) -> (result: usize)
        ensures
            result == self.keys().len(),
    {
        self.entries.len()
    }

    /// Whether no key is held.
    pub fn is_empty(&self) -> (result: bool)
        ensures
            result == (self.keys().len() == 0),
    {
        self.entries.len() == 0
    }

    fn position(&self, key: &String) -> (result: Option<usize>)
        ensures
            match result {
                Some(i) => i < self.entries@.len() && self.entries@[i as int].key@ == key@,
                None => forall|j: int|
                    0 <= j < self.entries@.len() ==> self.entries@[j].key@ != key@,
            },
    {
        let mut i: usize = 0;
        while i < self.entries.len()
            invariant
                i <= self.entries@.len(),
                forall|j: int| 0 <= j < i ==> self.entries@[j].key@ != key@,
            decreases self.entries@.len() - i,
        {
            if self.entries[i].key == *key {
                return Some(i);
            }
            i += 1;
        }
        None
    }

    /// Puts `value` under `key`. A key that is already held keeps its
    /// position and gets the new value; a new key goes to the end.
    pub fn insert(&mut self, key: String, value: V)
        requires
            old(self).wf(),
        ensures
            final(self).wf(),
            final(self)@ == old(self)@.insert(key@, value),
            final(self).keys() == if old(self)@.contains_key(key@) {
                old(self).keys()
            } else {
                old(self).keys().push(key@)
            },
    {
        let found = self.position(&key);
        let ghost before = self.entries@;
        let entry = Entry { key, value };
        match found {
            Some(i) => {
                proof {
                    lemma_fold_present(before, i as int);
                    lemma_fold_replace(before, i as int, entry);
                }
                self.entries.set(i, entry);
            },
            None => {
                proof {
                    lemma_fold_absent(before, entry.key@);
                    assert(before.push(entry).drop_last() =~= before);
                    assert(entry_keys(before.push(entry)) =~= entry_keys(before).push(entry.key@));
                }
                self.entries.push(entry);
            },
        }
    }

    /// The value under `key`, if the key is held.
    pub fn get(&self, key: &String) -> (result: Option<&V>)
        requires
            self.wf(),
        ensures
            match result {
                Some(value) => self@.contains_key(key@) && *value == self@[key@],
                None => !self@.contains_key(key@),
            },
    {
        match self.position(key) {
            Some(i) => {
                proof {
                    lemma_fold_present(self.entries@, i as int);
                }
                Some(&self.entries[i].value)
            },
            None => {
                proof {
                    lemma_fold_absent(self.entries@, key@);
                }
                None
            },
        }
    }

    /// Whether `key` is held.
    pub fn contains_key(&self, key: &String) -> (result: bool)
        requires
            self.wf(),
        ensures
            result == self@.contains_key(key@),
    {
        self.get(key).is_some()
    }

    /// The key at position `index` of the insertion order, with its value.
    pub fn entry_at(&self, index: usize) -> (result: Option<(&String, &V)>)
        requires
            self.wf(),
        ensures
            match result {
                Some((key, value)) => index < self.keys().len() && key@ == self.keys()[
                    index as int
                ] && self@.contains_key(key@) && *value == self@[key@],
                None => index >= self.keys().len(),
            },
    {
        if index < self.entries.len() {
            proof {
                lemma_fold_present(self.entries@, index as int);
            }
            Some((&self.entries[index].key, &self.entries[index].value))
        } else {
            None
        }
    }
}

} // verus!
