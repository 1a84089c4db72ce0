//! A map from public keys to values, kept as a list in which no key occurs
//! twice.

use vstd::prelude::*;
use crate::types::BlsPublicKey;

verus! {

/// One key with the value registered under it.
struct Entry<V> {
    key: BlsPublicKey,
    value: V,
}

/// No key occurs at two places.
spec fn distinct_keys<V>(entries: Seq<Entry<V>>) -> bool {
    forall|i: int, j: int|
        #![trigger entries[i], entries[j]]
        0 <= i < entries.len() && 0 <= j < entries.len() && i != j ==> entries[i].key@
            != entries[j].key@
}

/// Some entry has this key.
spec fn holds_key<V>(entries: Seq<Entry<V>>, key: Seq<u8>) -> bool {
    exists|i: int| #![trigger entries[i]] 0 <= i < entries.len() && entries[i].key@ == key
}

/// A place at which the key stands, where it stands anywhere.
spec fn place_of<V>(entries: Seq<Entry<V>>, key: Seq<u8>) -> int {
    choose|i: int| #![trigger entries[i]] 0 <= i < entries.len() && entries[i].key@ == key
}

/// The map that a list of entries stands for.
spec fn entries_map<V>(entries: Seq<Entry<V>>) -> Map<Seq<u8>, V> {
    Map::new(
        |key: Seq<u8>| holds_key(entries, key),
        |key: Seq<u8>| entries[place_of(entries, key)].value,
    )
}

/// The keys of a list of entries, in the order of the list.
spec fn entries_keys<V>(entries: Seq<Entry<V>>) -> Seq<Seq<u8>> {
    Seq::new(entries.len(), |i: int| entries[i].key@)
}

/// Each entry of a list without repeated keys is found under its own key.
proof fn lemma_entry_is_mapped<V>(entries: Seq<Entry<V>>, i: int)
    requires
        distinct_keys(entries),
        0 <= i < entries.len(),
    ensures
        holds_key(entries, entries[i].key@),
        place_of(entries, entries[i].key@) == i,
        entries_map(entries).dom().contains(entries[i].key@),
        entries_map(entries)[entries[i].key@] == entries[i].value,
{
    let key = entries[i].key@;
    let p = place_of(entries, key);
    assert(0 <= p < entries.len() && entries[p].key@ == key);
    if p != i {
        assert(entries[p].key@ != entries[i].key@);
    }
}

/// Appending an entry under a key that the list lacks inserts it into the map.
proof fn lemma_push_inserts<V>(entries: Seq<Entry<V>>, entry: Entry<V>)
    requires
        distinct_keys(entries),
        !holds_key(entries, entry.key@),
    ensures
        distinct_keys(entries.push(entry)),
        entries_map(entries.push(entry)) == entries_map(entries).insert(entry.key@, entry.value),
{
    let after = entries.push(entry);
    let n = entries.len() as int;
    assert forall|i: int, j: int|
        #![trigger after[i], after[j]]
        0 <= i < after.len() && 0 <= j < after.len() && i != j implies after[i].key@
        != after[j].key@ by {
        if i < n && j < n {
            assert(entries[i].key@ != entries[j].key@);
        } else if i < n {
            assert(entries[i].key@ == after[i].key@);
        } else {
            assert(entries[j].key@ == after[j].key@);
        }
    }
    let expected = entries_map(entries).insert(entry.key@, entry.value);
    assert forall|key: Seq<u8>| entries_map(after).dom().contains(key) == expected.dom().contains(
        key,
    ) by {
        if holds_key(after, key) {
            let p = place_of(after, key);
            if p < n {
                assert(entries[p].key@ == key);
            }
        }
        if holds_key(entries, key) {
            let p = place_of(entries, key);
            assert(after[p].key@ == key);
        }
        if key == entry.key@ {
            assert(after[n].key@ == key);
        }
    }
    assert forall|key: Seq<u8>| entries_map(after).dom().contains(key) implies entries_map(
        after,
    )[key] == expected[key] by {
        let p = place_of(after, key);
        lemma_entry_is_mapped(after, p);
        if p < n {
            assert(entries[p] == after[p]);
            lemma_entry_is_mapped(entries, p);
        }
    }
    assert(entries_map(after) =~= expected);
}

/// Replacing the entry of a key by another under the same key overwrites the
/// key's value in the map.
proof fn lemma_update_inserts<V>(entries: Seq<Entry<V>>, i: int, entry: Entry<V>)
    requires
        distinct_keys(entries),
        0 <= i < entries.len(),
        entries[i].key@ == entry.key@,
    ensures
        distinct_keys(entries.update(i, entry)),
        entries_map(entries.update(i, entry)) == entries_map(entries).insert(
            entry.key@,
            entry.value,
        ),
{
    let after = entries.update(i, entry);
    assert forall|a: int, b: int|
        #![trigger after[a], after[b]]
        0 <= a < after.len() && 0 <= b < after.len() && a != b implies after[a].key@
        != after[b].key@ by {
        assert(after[a].key@ == entries[a].key@);
        assert(after[b].key@ == entries[b].key@);
    }
    let expected = entries_map(entries).insert(entry.key@, entry.value);
    assert forall|key: Seq<u8>| entries_map(after).dom().contains(key) == expected.dom().contains(
        key,
    ) by {
        if holds_key(after, key) {
            let p = place_of(after, key);
            assert(entries[p].key@ == key);
        }
        if holds_key(entries, key) {
            let p = place_of(entries, key);
            assert(after[p].key@ == key);
        }
        if key == entry.key@ {
            assert(after[i].key@ == key);
        }
    }
    assert forall|key: Seq<u8>| entries_map(after).dom().contains(key) implies entries_map(
        after,
    )[key] == expected[key] by {
        let p = place_of(after, key);
        lemma_entry_is_mapped(after, p);
        if p != i {
            assert(entries[p] == after[p]);
            lemma_entry_is_mapped(entries, p);
        }
    }
    assert(entries_map(after) =~= expected);
}

/// The keys of a list without repeated keys are the map's keys, each once.
proof fn lemma_keys_are_domain<V>(entries: Seq<Entry<V>>)
    requires
        distinct_keys(entries),
    ensures
        entries_keys(entries).no_duplicates(),
        entries_keys(entries).to_set() == entries_map(entries).dom(),
        entries_keys(entries).len() == entries_map(entries).dom().len(),
        entries_map(entries).dom().finite(),
{
    let keys = entries_keys(entries);
    assert forall|i: int, j: int| 0 <= i < keys.len() && 0 <= j < keys.len() && i != j implies keys[i]
        != keys[j] by {
        assert(entries[i].key@ != entries[j].key@);
    }
    assert forall|key: Seq<u8>| keys.to_set().contains(key) == entries_map(entries).dom().contains(
        key,
    ) by {
        if keys.to_set().contains(key) {
            let i = choose|i: int| 0 <= i < keys.len() && keys[i] == key;
            assert(entries[i].key@ == key);
        }
        if holds_key(entries, key) {
            let p = place_of(entries, key);
            assert(keys[p] == key);
        }
    }
    assert(keys.to_set() =~= entries_map(entries).dom());
    keys.unique_seq_to_set();
}

/// A map from public keys to values.
pub struct Registry<V> {
    entries: Vec<Entry<V>>,
}

impl<V> View for Registry<V> {
    type V = Map<Seq<u8>, V>;

    closed spec fn view(&self) -> Map<Seq<u8>, V> {
        entries_map(self.entries@)
    }
}

impl<V> Registry<V> {
    #[verifier::type_invariant]
    spec fn well_formed(self) -> bool {
        distinct_keys(self.entries@)
    }

    /// The keys in the order in which the registry lists them.
    pub closed spec fn order(self) -> Seq<Seq<u8>> {
        entries_keys(self.entries@)
    }

    /// A registry without entries.
    pub fn new() -> (registry: Registry<V>)
        ensures
            registry@ == Map::<Seq<u8>, V>::empty(),
    {
        let registry = Registry { entries: Vec::new() };
        assert(registry@ =~= Map::<Seq<u8>, V>::empty());
        registry
    }

    /// The place of a key in the list.
    fn find(&self, key: &BlsPublicKey) -> (place: Option<usize>)
        ensures
            match place {
                Some(i) => i < self.entries@.len() && self.entries@[i as int].key@ == key@,
                None => !holds_key(self.entries@, key@),
            },
    {
        let mut i: usize = 0;
        while i < self.entries.len()
            invariant
                i <= self.entries@.len(),
                forall|j: int| 0 <= j < i ==> self.entries@[j].key@ != key@,
            decreases self.entries@.len() - i,
        {
            if self.entries[i].key.same_as(key) {
                return Some(i);
            }
            i += 1;
        }
        None
    }

    /// Registers `value` under `key`, in place of what was registered there.
    pub fn insert(&mut self, key: BlsPublicKey, value: V)
        ensures
            final(self)@ == old(self)@.insert(key@, value),
    {
        proof {
            use_type_invariant(&*self);
        }
        let entry = Entry { key, value };
        let place = self.find(&key);
        let mut entries: Vec<Entry<V>> = Vec::new();
        core::mem::swap(&mut self.entries, &mut entries);
        match place {
            Some(i) => {
                proof {
                    lemma_update_inserts(entries@, i as int, entry);
                }
                entries[i] = entry;
            },
            None => {
                proof {
                    lemma_push_inserts(entries@, entry);
                }
                entries.push(entry);
            },
        }
        core::mem::swap(&mut self.entries, &mut entries);
    }

    /// The value registered under `key`.
    pub fn get(&self, key: &BlsPublicKey) -> (value: Option<&V>)
        ensures
            match value {
                Some(v) => self@.dom().contains(key@) && *v == self@[key@],
                None => !self@.dom().contains(key@),
            },
    {
        proof {
            use_type_invariant(self);
        }
        match self.find(key) {
            Some(i) => {
                proof {
                    lemma_entry_is_mapped(self.entries@, i as int);
                }
                Some(&self.entries[i].value)
            },
            None => None,
        }
    }

    /// Whether a value is registered under `key`.
    pub fn contains_key(&self, key: &BlsPublicKey) -> (found: bool)
        ensures
            found == self@.dom().contains(key@),
    {
        self.find(key).is_some()
    }

    /// How many keys are registered.
    pub fn len(&self) -> (count: usize)
        ensures
            count == self.order().len(),
            count == self@.dom().len(),
            self@.dom().finite(),
            self.order().no_duplicates(),
            self.order().to_set() == self@.dom(),
    {
        proof {
            use_type_invariant(self);
            lemma_keys_are_domain(self.entries@);
        }
        self.entries.len()
    }

    /// The key at place `i` of the registry's order.
    pub fn key_at(&self, i: usize) -> (key: BlsPublicKey)
        requires
            i < self.order().len(),
        ensures
            key@ == self.order()[i as int],
            self@.dom().contains(key@),
    {
        proof {
            use_type_invariant(self);
            lemma_entry_is_mapped(self.entries@, i as int);
        }
        self.entries[i].key
    }

    /// The value registered under the key at place `i` of the registry's order.
    pub fn value_at(&self, i: usize) -> (value: &V)
        requires
            i < self.order().len(),
        ensures
            self@.dom().contains(self.order()[i as int]),
            *value == self@[self.order()[i as int]],
    {
        proof {
            use_type_invariant(self);
            lemma_entry_is_mapped(self.entries@, i as int);
        }
        &self.entries[i].value
    }
}

} // verus!
