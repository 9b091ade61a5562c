use std::collections::HashMap;

use vstd::prelude::*;

use super::broadcast::{Broadcast, RingState};
use super::Storage as KeyedStorage;
use crate::ring::{next_slot, prev_slot};
use crate::storage::Storage;

verus! {

/// One broadcast ring per key, made on the first insert under that key; a
/// reader reads the ring of the key it has chosen.
pub struct Disperse<V> {
    key: usize,
    buffers: HashMap<usize, Broadcast<V>>,
    capacity: usize,
}

impl<V> Disperse<V> {
    /// The key this reader reads.
    pub closed spec fn key(&self) -> usize {
        self.key
    }

    /// The capacity of each ring made on a first insert.
    pub closed spec fn ring_capacity(&self) -> usize {
        self.capacity
    }

    /// The ring of each key that has had an insert.
    pub closed spec fn rings(&self) -> Map<usize, RingState<V>> {
        self.buffers@.map_values(|b: Broadcast<V>| b@)
    }

    /// No rings yet; the reader reads key 0, the integer default.
    pub fn new(capacity: usize) -> (r: Self)
        ensures
            r.key() == 0,
            r.ring_capacity() == capacity,
            r.rings() == Map::<usize, RingState<V>>::empty(),
    {
        let r = Disperse { key: 0, buffers: HashMap::with_capacity(capacity), capacity };
        proof {
            assert(r.rings() =~= Map::<usize, RingState<V>>::empty());
        }
        r
    }

    /// The ring of the chosen key, if it has had an insert.
    pub open spec fn chosen(&self) -> Option<RingState<V>> {
        if self.rings().contains_key(self.key()) {
            Some(self.rings()[self.key()])
        } else {
            None
        }
    }
}

impl<V> KeyedStorage<usize, V> for Disperse<V> {
    open spec fn default_key() -> usize {
        0
    }

    open spec fn insertable(&self, key: usize) -> bool {
        self.rings().contains_key(key) || self.ring_capacity() > 0
    }

    open spec fn inserted(before: Self, key: usize, value: V, after: Self) -> bool {
        let ring = if before.rings().contains_key(key) {
            before.rings()[key]
        } else {
            RingState::<V>::empty(before.ring_capacity() as nat)
        };
        &&& after.key() == before.key()
        &&& after.ring_capacity() == before.ring_capacity()
        &&& after.rings() == before.rings().insert(key, ring.push(value))
    }

    open spec fn refreshed(before: Self, after: Self) -> bool {
        after == before
    }

    open spec fn readable(&self, cursor: usize) -> bool {
        match self.chosen() {
            Some(ring) => cursor == ring.cursor || cursor < ring.capacity(),
            None => true,
        }
    }

    open spec fn item_at(&self, cursor: usize) -> Option<(V, usize)> {
        match self.chosen() {
            Some(ring) => ring.read(cursor as int),
            None => None,
        }
    }

    open spec fn prev_cursor(&self) -> usize {
        match self.chosen() {
            Some(ring) => prev_slot(ring.cursor, ring.capacity()) as usize,
            None => 0,
        }
    }

    open spec fn sizeable(&self, cursor: usize) -> bool {
        match self.chosen() {
            Some(ring) => cursor <= ring.capacity(),
            None => true,
        }
    }

    open spec fn size_at(&self, cursor: usize) -> usize {
        match self.chosen() {
            Some(ring) => ring.behind(cursor as int) as usize,
            None => 0,
        }
    }

    open spec fn keyed(before: Self, key: usize, after: Self) -> bool {
        &&& after.key() == key
        &&& after.ring_capacity() == before.ring_capacity()
        &&& after.rings() == before.rings()
    }

    fn insert_with_default(&mut self, value: V) {
        self.insert(0, value);
    }

    /// Pushes `value` on the ring of `key`, making that ring first if the
    /// key has had no insert.
    fn insert(&mut self, key: usize, value: V) {
        let ghost before = *self;
        let mut ring = match self.buffers.remove(&key) {
            Some(ring) => ring,
            None => Broadcast::new(self.capacity),
        };
        ring.insert(value);
        self.buffers.insert(key, ring);
        proof {
            assert(self.rings() =~= before.rings().insert(key, ring@));
        }
    }

    /// Rings have nothing to refresh.
    fn refresh(&mut self) {
    }

    fn get_item(&self, cursor: usize) -> (r: Option<(&V, usize)>)
        ensures
            !self.rings().contains_key(self.key()) ==> r is None,
            r matches Some((v, next)) ==> {
                &&& self.rings().contains_key(self.key())
                &&& cursor != self.rings()[self.key()].cursor
                &&& self.rings()[self.key()].slots[cursor as int] == Some(*v)
                &&& next == next_slot(cursor as int, self.rings()[self.key()].capacity()) as usize
            },
    {
        match self.buffers.get(&self.key) {
            Some(ring) => {
                proof {
                    assert(self.rings()[self.key()] == ring@);
                }
                ring.get_item(cursor)
            },
            None => None,
        }
    }

    fn get_prev_cursor(&self) -> (r: usize) {
        match self.buffers.get(&self.key) {
            Some(ring) => ring.get_prev_cursor(),
            None => 0,
        }
    }

    fn size_hint(&self, cursor: usize) -> (r: usize) {
        match self.buffers.get(&self.key) {
            Some(ring) => ring.size_hint(cursor),
            None => 0,
        }
    }

    fn with_key(&mut self, key: usize) {
        self.key = key;
    }
}

/// A reader reads only the ring of the key it chose: with no insert under
/// that key it reads nothing, and whatever it reads is a value written under
/// that key.
pub proof fn lemma_reads_only_chosen_key<V>(d: Disperse<V>, cursor: usize)
    ensures
        !d.rings().contains_key(d.key()) ==> d.item_at(cursor) is None,
        d.item_at(cursor) matches Some((v, next)) ==> {
            &&& d.rings().contains_key(d.key())
            &&& cursor != d.rings()[d.key()].cursor
            &&& d.rings()[d.key()].slots[cursor as int] == Some(v)
        },
{
}

/// An insert under another key leaves what a reader reads unchanged.
pub proof fn lemma_other_key_insert_unseen<V>(before: Disperse<V>, key: usize, value: V, after: Disperse<V>, cursor: usize)
    requires
        <Disperse<V> as KeyedStorage<usize, V>>::inserted(before, key, value, after),
        key != before.key(),
    ensures
        after.key() == before.key(),
        after.item_at(cursor) == before.item_at(cursor),
        after.size_at(cursor) == before.size_at(cursor),
{
    assert(after.rings().contains_key(after.key()) == before.rings().contains_key(before.key()));
    if before.rings().contains_key(before.key()) {
        assert(after.rings()[after.key()] == before.rings()[before.key()]);
    }
}

} // verus!
