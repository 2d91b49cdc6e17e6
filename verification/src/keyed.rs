//! Objects by namespace and name.

use crate::text::same_text;
use vstd::prelude::*;

verus! {

/// Namespace and name of an `Echo` that awaits reconciliation.
#[derive(Debug)]
pub struct TriggerKey {
    pub namespace: String,
    pub name: String,
}

/// A `TriggerKey` as plain values: namespace, then name.
pub type KeyView = (Seq<char>, Seq<char>);

impl View for TriggerKey {
    type V = KeyView;

    open spec fn view(&self) -> KeyView {
        (self.namespace@, self.name@)
    }
}

impl DeepView for TriggerKey {
    type V = KeyView;

    open spec fn deep_view(&self) -> KeyView {
        self@
    }
}

impl Clone for TriggerKey {
    fn clone(&self) -> (copy: TriggerKey)
        ensures
            copy@ == self@,
    {
        TriggerKey { namespace: self.namespace.clone(), name: self.name.clone() }
    }
}

impl TriggerKey {
    /// The key of the object `name` in `namespace`.
    pub fn new(namespace: &str, name: &str) -> (key: TriggerKey)
        ensures
            key@ == (namespace@, name@),
    {
        TriggerKey { namespace: namespace.to_owned(), name: name.to_owned() }
    }

    /// Tells whether two keys name the same object.
    pub fn same(&self, other: &TriggerKey) -> (same: bool)
        ensures
            same == (self@ == other@),
    {
        same_text(self.namespace.as_str(), other.namespace.as_str()) && same_text(
            self.name.as_str(),
            other.name.as_str(),
        )
    }
}

/// The map that a list of keyed values stands for; a later entry overrides
/// an earlier one with the same key.
pub open spec fn entries_map<V>(entries: Seq<(TriggerKey, V)>) -> Map<KeyView, V>
    decreases entries.len(),
{
    if entries.len() == 0 {
        Map::empty()
    } else {
        entries_map(entries.drop_last()).insert(entries.last().0@, entries.last().1)
    }
}

/// The keys of a list of keyed values, in order.
pub open spec fn entries_keys<V>(entries: Seq<(TriggerKey, V)>) -> Seq<KeyView> {
    Seq::new(entries.len(), |i: int| entries[i].0@)
}

/// The keys of a list are the keys of its map.
pub proof fn lemma_entries_keys<V>(entries: Seq<(TriggerKey, V)>)
    ensures
        forall|key: KeyView|
            entries_map(entries).contains_key(key) <==> entries_keys(entries).contains(key),
    decreases entries.len(),
{
    if entries.len() > 0 {
        let front = entries.drop_last();
        lemma_entries_keys(front);
        assert forall|key: KeyView|
            entries_map(entries).contains_key(key) <==> entries_keys(entries).contains(
                key,
            ) by {
            if entries_keys(entries).contains(key) {
                let at = choose|i: int|
                    0 <= i < entries_keys(entries).len() && entries_keys(entries)[i] == key;
                if at < front.len() {
                    assert(entries_keys(front)[at] == key);
                }
            }
            if entries_keys(front).contains(key) {
                let at = choose|i: int|
                    0 <= i < entries_keys(front).len() && entries_keys(front)[i] == key;
                assert(entries_keys(entries)[at] == key);
            }
            if key == entries.last().0@ {
                assert(entries_keys(entries)[entries.len() - 1] == key);
            }
        }
    }
}

/// With distinct keys, each entry of the list is an entry of the map.
pub proof fn lemma_entry_present<V>(entries: Seq<(TriggerKey, V)>, at: int)
    requires
        entries_keys(entries).no_duplicates(),
        0 <= at < entries.len(),
    ensures
        entries_map(entries).contains_key(entries[at].0@),
        entries_map(entries)[entries[at].0@] == entries[at].1,
    decreases entries.len(),
{
    if at < entries.len() - 1 {
        let front = entries.drop_last();
        assert(entries_keys(front) =~= entries_keys(entries).drop_last());
        lemma_entry_present(front, at);
        assert(entries_keys(entries)[at] != entries_keys(entries)[entries.len() - 1]);
    }
}

/// With distinct keys, a new value at `at` changes that entry of the map
/// and no other.
pub proof fn lemma_entry_replaced<V>(
    entries: Seq<(TriggerKey, V)>,
    at: int,
    entry: (TriggerKey, V),
)
    requires
        entries_keys(entries).no_duplicates(),
        0 <= at < entries.len(),
        entry.0@ == entries[at].0@,
    ensures
        entries_map(entries.update(at, entry)) == entries_map(entries).insert(entry.0@, entry.1),
        entries_keys(entries.update(at, entry)) == entries_keys(entries),
    decreases entries.len(),
{
    let changed = entries.update(at, entry);
    if at == entries.len() - 1 {
        assert(changed.drop_last() =~= entries.drop_last());
    } else {
        let front = entries.drop_last();
        assert(entries_keys(front) =~= entries_keys(entries).drop_last());
        lemma_entry_replaced(front, at, entry);
        assert(changed.drop_last() =~= front.update(at, entry));
        assert(entries_keys(entries)[at] != entries_keys(entries)[entries.len() - 1]);
    }
}

/// With distinct keys, the list without the entry at `at` stands for the
/// map without its key.
pub proof fn lemma_entry_removed<V>(entries: Seq<(TriggerKey, V)>, at: int)
    requires
        entries_keys(entries).no_duplicates(),
        0 <= at < entries.len(),
    ensures
        entries_map(entries.remove(at)) == entries_map(entries).remove(entries[at].0@),
        entries_keys(entries.remove(at)) == entries_keys(entries).remove(at),
        entries_keys(entries.remove(at)).no_duplicates(),
    decreases entries.len(),
{
    let shorter = entries.remove(at);
    let front = entries.drop_last();
    assert(entries_keys(front) =~= entries_keys(entries).drop_last());
    if at == entries.len() - 1 {
        lemma_entries_keys(front);
        if entries_keys(front).contains(entries[at].0@) {
            let other = choose|i: int|
                0 <= i < entries_keys(front).len() && entries_keys(front)[i] == entries[at].0@;
            assert(entries_keys(entries)[other] == entries_keys(entries)[at]);
        }
    } else {
        lemma_entry_removed(front, at);
        assert(shorter.drop_last() =~= front.remove(at));
        assert(entries_keys(entries)[at] != entries_keys(entries)[entries.len() - 1]);
    }
}

/// Values by key, with no key twice.
#[derive(Debug)]
pub struct KeyedList<V> {
    entries: Vec<(TriggerKey, V)>,
}

impl<V> View for KeyedList<V> {
    type V = Map<KeyView, V>;

    closed spec fn view(&self) -> Map<KeyView, V> {
        entries_map(self.entries@)
    }
}

impl<V> KeyedList<V> {
    #[verifier::type_invariant]
    spec fn well_formed(self) -> bool {
        entries_keys(self.entries@).no_duplicates()
    }

    /// The keys in the order in which they came in.
    pub closed spec fn keys(self) -> Seq<KeyView> {
        entries_keys(self.entries@)
    }

    /// The empty list.
    pub fn new() -> (list: KeyedList<V>)
        ensures
            list@ == Map::<KeyView, V>::empty(),
            list.keys().len() == 0,
    {
        KeyedList { entries: Vec::new() }
    }

    /// Number of entries. Every key of the map stands once among the keys.
    pub fn len(&self) -> (n: usize)
        ensures
            n == self.keys().len(),
            self.keys().no_duplicates(),
            forall|key: KeyView| self@.contains_key(key) <==> self.keys().contains(key),
    {
        proof {
            use_type_invariant(self);
            lemma_entries_keys(self.entries@);
        }
        self.entries.len()
    }

    /// The entry at position `at`.
    pub fn entry(&self, at: usize) -> (entry: (&TriggerKey, &V))
        requires
            at < self.keys().len(),
        ensures
            entry.0@ == self.keys()[at as int],
            self@.contains_key(entry.0@),
            self@[entry.0@] == *entry.1,
    {
        proof {
            use_type_invariant(self);
            lemma_entry_present(self.entries@, at as int);
        }
        (&self.entries[at].0, &self.entries[at].1)
    }

    /// Position of `key`, if it is there.
    fn position(&self, key: &TriggerKey) -> (at: Option<usize>)
        ensures
            match at {
                Some(i) => i < self.entries.len() && self.entries@[i as int].0@ == key@,
                None => !entries_keys(self.entries@).contains(key@),
            },
    {
        let mut i: usize = 0;
        while i < self.entries.len()
            invariant
                i <= self.entries.len(),
                forall|j: int| 0 <= j < i ==> entries_keys(self.entries@)[j] != key@,
            decreases self.entries.len() - i,
        {
            if self.entries[i].0.same(key) {
                return Some(i);
            }
            i += 1;
        }
        None
    }

    /// The value under `key`, if there is one.
    pub fn get(&self, key: &TriggerKey) -> (value: Option<&V>)
        ensures
            value is Some == self@.contains_key(key@),
            value is Some ==> *value->0 == self@[key@],
    {
        proof {
            use_type_invariant(self);
            lemma_entries_keys(self.entries@);
        }
        match self.position(key) {
            Some(i) => {
                proof {
                    lemma_entry_present(self.entries@, i as int);
                }
                Some(&self.entries[i].1)
            },
            None => None,
        }
    }

    /// Puts `value` under `key`, in place of what was there.
    pub fn insert(&mut self, key: TriggerKey, value: V)
        ensures
            final(self)@ == old(self)@.insert(key@, value),
    {
        proof {
            use_type_invariant(&*self);
        }
        let found = self.position(&key);
        let mut held = KeyedList { entries: Vec::new() };
        core::mem::swap(self, &mut held);
        let mut entries = held.entries;
        match found {
            Some(i) => {
                proof {
                    lemma_entry_replaced(entries@, i as int, (key, value));
                }
                entries.set(i, (key, value));
            },
            None => {
                let ghost before = entries@;
                entries.push((key, value));
                assert(entries@.drop_last() =~= before);
                assert(entries_keys(entries@) =~= entries_keys(before).push(key@));
            },
        }
        *self = KeyedList { entries };
    }

    /// Takes out what is under `key`.
    pub fn remove(&mut self, key: &TriggerKey) -> (value: Option<V>)
        ensures
            final(self)@ == old(self)@.remove(key@),
            value is Some == old(self)@.contains_key(key@),
            value is Some ==> value->0 == old(self)@[key@],
    {
        proof {
            use_type_invariant(&*self);
            lemma_entries_keys(self.entries@);
        }
        let found = self.position(key);
        match found {
            Some(i) => {
                let mut held = KeyedList { entries: Vec::new() };
                core::mem::swap(self, &mut held);
                let mut entries = held.entries;
                proof {
                    lemma_entry_present(entries@, i as int);
                    lemma_entry_removed(entries@, i as int);
                }
                let taken = entries.remove(i);
                *self = KeyedList { entries };
                Some(taken.1)
            },
            None => {
                None
            },
        }
    }
}

} // verus!
