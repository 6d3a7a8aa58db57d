//! Maps from keys to values, each with a mathematical model.

use vstd::prelude::*;

use super::bytes::{append_bytes, same_bytes};

verus! {

/// A value that is kept in storage.
pub trait Stored: Sized {
    /// What the value stands for.
    type Model;

    /// What the value stands for.
    spec fn model(&self) -> Self::Model;

    /// Another value that stands for the same.
    fn duplicate(&self) -> (r: Self)
        ensures
            r.model() == self.model(),
    ;
}

/// A value that other values are found by.
pub trait StorageKey: Stored {
    /// Whether two keys stand for the same.
    fn same(&self, other: &Self) -> (r: bool)
        ensures
            r == (self.model() == other.model()),
    ;
}

impl Stored for [u8; 32] {
    type Model = Seq<u8>;

    open spec fn model(&self) -> Seq<u8> {
        self@
    }

    fn duplicate(&self) -> (r: Self) {
        *self
    }
}

impl StorageKey for [u8; 32] {
    fn same(&self, other: &Self) -> (r: bool) {
        same_bytes(self.as_slice(), other.as_slice())
    }
}

impl Stored for Vec<u8> {
    type Model = Seq<u8>;

    open spec fn model(&self) -> Seq<u8> {
        self@
    }

    fn duplicate(&self) -> (r: Self) {
        let mut r: Vec<u8> = Vec::new();
        append_bytes(&mut r, self.as_slice());
        assert(r.model() =~= self.model());
        r
    }
}

impl StorageKey for Vec<u8> {
    fn same(&self, other: &Self) -> (r: bool) {
        same_bytes(self.as_slice(), other.as_slice())
    }
}

impl<A: Stored, B: Stored> Stored for (A, B) {
    type Model = (A::Model, B::Model);

    open spec fn model(&self) -> (A::Model, B::Model) {
        (self.0.model(), self.1.model())
    }

    fn duplicate(&self) -> (r: Self) {
        (self.0.duplicate(), self.1.duplicate())
    }
}

impl<A: StorageKey, B: StorageKey> StorageKey for (A, B) {
    fn same(&self, other: &Self) -> (r: bool) {
        self.0.same(&other.0) && self.1.same(&other.1)
    }
}

/// An account, of a person or of an organization. It stands for its bytes.
pub trait Account: Stored<Model = Seq<u8>> + StorageKey {
    /// The bytes of the account.
    fn as_bytes(&self) -> (r: &[u8])
        ensures
            r@ == self.model(),
    ;
}

impl Account for [u8; 32] {
    fn as_bytes(&self) -> (r: &[u8]) {
        self.as_slice()
    }
}

impl Account for Vec<u8> {
    fn as_bytes(&self) -> (r: &[u8]) {
        self.as_slice()
    }
}

/// The map that a list of entries stands for. Of entries with the same key the first counts.
pub open spec fn map_of<K: StorageKey, V: Stored>(entries: Seq<(K, V)>) -> Map<K::Model, V::Model>
    decreases entries.len(),
{
    if entries.len() == 0 {
        Map::empty()
    } else {
        let before = map_of(entries.drop_last());
        let (key, value) = entries.last();
        if before.contains_key(key.model()) {
            before
        } else {
            before.insert(key.model(), value.model())
        }
    }
}

/// A key is in the map where it is in the list.
proof fn lemma_map_of_contains<K: StorageKey, V: Stored>(entries: Seq<(K, V)>, key: K::Model)
    ensures
        map_of(entries).contains_key(key) <==> exists|i: int|
            0 <= i < entries.len() && (#[trigger] entries[i]).0.model() == key,
    decreases entries.len(),
{
    if entries.len() > 0 {
        let before = entries.drop_last();
        lemma_map_of_contains(before, key);
        if exists|i: int| 0 <= i < before.len() && (#[trigger] before[i]).0.model() == key {
            let i = choose|i: int| 0 <= i < before.len() && (#[trigger] before[i]).0.model() == key;
            assert(entries[i].0.model() == key);
        }
        if exists|i: int| 0 <= i < entries.len() && (#[trigger] entries[i]).0.model() == key {
            let i = choose|i: int|
                0 <= i < entries.len() && (#[trigger] entries[i]).0.model() == key;
            if i < before.len() {
                assert(before[i].0.model() == key);
            }
        }
        assert(entries.last() == entries[entries.len() - 1]);
    }
}

/// The value of a key is that of the first entry with the key.
proof fn lemma_map_of_first<K: StorageKey, V: Stored>(entries: Seq<(K, V)>, first: int)
    requires
        0 <= first < entries.len(),
        forall|i: int|
            0 <= i < first ==> (#[trigger] entries[i]).0.model() != entries[first].0.model(),
    ensures
        map_of(entries).contains_key(entries[first].0.model()),
        map_of(entries)[entries[first].0.model()] == entries[first].1.model(),
    decreases entries.len(),
{
    let before = entries.drop_last();
    if first < before.len() {
        assert(before[first] == entries[first]);
        assert forall|i: int| 0 <= i < first implies (#[trigger] before[i]).0.model()
            != before[first].0.model() by {
            assert(before[i] == entries[i]);
        }
        lemma_map_of_first(before, first);
    } else {
        lemma_map_of_contains(before, entries[first].0.model());
        assert forall|i: int| 0 <= i < before.len() implies (#[trigger] before[i]).0.model()
            != entries[first].0.model() by {
            assert(before[i] == entries[i]);
        }
    }
}

/// Replacing the first entry of a key sets the value of the key.
proof fn lemma_map_of_update<K: StorageKey, V: Stored>(
    entries: Seq<(K, V)>,
    first: int,
    entry: (K, V),
)
    requires
        0 <= first < entries.len(),
        entry.0.model() == entries[first].0.model(),
        forall|i: int|
            0 <= i < first ==> (#[trigger] entries[i]).0.model() != entries[first].0.model(),
    ensures
        map_of(entries.update(first, entry)) == map_of(entries).insert(
            entry.0.model(),
            entry.1.model(),
        ),
    decreases entries.len(),
{
    let before = entries.drop_last();
    let updated = entries.update(first, entry);
    if first < before.len() {
        assert(before[first] == entries[first]);
        assert forall|i: int| 0 <= i < first implies (#[trigger] before[i]).0.model()
            != before[first].0.model() by {
            assert(before[i] == entries[i]);
        }
        lemma_map_of_update(before, first, entry);
        lemma_map_of_first(before, first);
        assert(updated.drop_last() =~= before.update(first, entry));
        assert(updated.last() == entries.last());
        assert(map_of(updated) =~= map_of(entries).insert(entry.0.model(), entry.1.model()));
    } else {
        lemma_map_of_contains(before, entry.0.model());
        assert forall|i: int| 0 <= i < before.len() implies (#[trigger] before[i]).0.model()
            != entry.0.model() by {
            assert(before[i] == entries[i]);
        }
        assert(updated.drop_last() =~= before);
        assert(map_of(updated) =~= map_of(entries).insert(entry.0.model(), entry.1.model()));
    }
}

/// A map that is kept in storage.
pub struct StorageMap<K, V> {
    entries: Vec<(K, V)>,
}

impl<K: StorageKey, V: Stored> StorageMap<K, V> {
    /// The map.
    pub closed spec fn model(self) -> Map<K::Model, V::Model> {
        map_of(self.entries@)
    }

    /// The empty map.
    pub fn new() -> (r: Self)
        ensures
            r.model() == Map::<K::Model, V::Model>::empty(),
    {
        StorageMap { entries: Vec::new() }
    }

    /// The place of the first entry with the key.
    fn position(&self, key: &K) -> (r: Option<usize>)
        ensures
            r matches Some(i) ==> {
                &&& i < self.entries@.len()
                &&& self.entries@[i as int].0.model() == key.model()
                &&& forall|j: int|
                    0 <= j < i ==> (#[trigger] self.entries@[j]).0.model() != key.model()
                &&& self.model().contains_key(key.model())
                &&& self.model()[key.model()] == self.entries@[i as int].1.model()
            },
            r is None ==> !self.model().contains_key(key.model()),
    {
        let mut i: usize = 0;
        while i < self.entries.len()
            invariant
                i <= self.entries@.len(),
                forall|j: int|
                    0 <= j < i ==> (#[trigger] self.entries@[j]).0.model() != key.model(),
            decreases self.entries@.len() - i,
        {
            if self.entries[i].0.same(key) {
                proof {
                    lemma_map_of_first(self.entries@, i as int);
                }
                return Some(i);
            }
            i = i + 1;
        }
        proof {
            lemma_map_of_contains(self.entries@, key.model());
        }
        None
    }

    /// Whether the key is in the map.
    pub fn contains_key(&self, key: &K) -> (r: bool)
        ensures
            r == self.model().contains_key(key.model()),
    {
        self.position(key).is_some()
    }

    /// The value of the key, where it is in the map.
    pub fn get(&self, key: &K) -> (r: Option<V>)
        ensures
            r is Some <==> self.model().contains_key(key.model()),
            r matches Some(value) ==> value.model() == self.model()[key.model()],
    {
        match self.position(key) {
            Some(i) => Some(self.entries[i].1.duplicate()),
            None => None,
        }
    }

    /// Sets the value of the key.
    pub fn insert(&mut self, key: K, value: V)
        ensures
            final(self).model() == old(self).model().insert(key.model(), value.model()),
    {
        match self.position(&key) {
            Some(i) => {
                proof {
                    lemma_map_of_update(self.entries@, i as int, (key, value));
                }
                self.entries.set(i, (key, value));
            },
            None => {
                let ghost before = self.entries@;
                self.entries.push((key, value));
                proof {
                    assert(self.entries@.drop_last() =~= before);
                }
            },
        }
    }
}

/// Byte strings stand for their bytes, and pairs for what their halves stand for.
pub proof fn law_keys_stand_for_their_bytes(array: [u8; 32], bytes: Vec<u8>)
    ensures
        array.model() == array@,
        bytes.model() == bytes@,
        (array, bytes).model() == (array@, bytes@),
{
}

} // verus!
