use vstd::prelude::*;

pub use crate::ring::RingState;
use crate::ring::{
    lemma_readers_see_every_write, next_index, next_slot, prev_index, prev_slot, push_all, slot_after,
};
use crate::storage::Storage;

verus! {

/// A fixed-capacity ring that every reader sees in full: each insert
/// overwrites the oldest slot.
pub struct Broadcast<V> {
    buffer: Vec<Option<V>>,
    capacity: usize,
    cursor: usize,
}

impl<V> View for Broadcast<V> {
    type V = RingState<V>;

    closed spec fn view(&self) -> RingState<V> {
        RingState { slots: self.buffer@, cursor: self.cursor as int }
    }
}

impl<V> Broadcast<V> {
    #[verifier::type_invariant]
    closed spec fn inv(self) -> bool {
        &&& self.capacity > 0
        &&& self.buffer@.len() == self.capacity
        &&& self.cursor < self.capacity
    }

    /// A ring of `capacity` empty slots; a ring has at least one slot.
    pub fn new(capacity: usize) -> (r: Self)
        requires
            capacity > 0,
        ensures
            r@ == RingState::<V>::empty(capacity as nat),
    {
        let buffer = empty_slots(capacity);
        Broadcast { buffer, capacity, cursor: 0 }
    }

    fn next_cursor(&self, cursor: usize) -> (r: usize)
        requires
            cursor < self@.capacity(),
        ensures
            r == next_slot(cursor as int, self@.capacity()),
    {
        proof {
            use_type_invariant(self);
        }
        next_index(cursor, self.capacity)
    }

    /// Writes `value` at the cursor and moves the cursor on, wrapping.
    fn write_slot(&mut self, value: V)
        ensures
            final(self)@ == old(self)@.push(value),
        no_unwind
    {
        proof {
            use_type_invariant(&*self);
        }
        let cursor = self.cursor;
        self.buffer[cursor] = Some(value);
        self.cursor = if cursor + 1 < self.capacity {
            cursor + 1
        } else {
            0
        };
    }

    /// The number of slots; every ring has a slot and a cursor inside it.
    pub fn capacity(&self) -> (r: usize)
        ensures
            r == self@.capacity(),
            self@.well_formed(),
    {
        proof {
            use_type_invariant(self);
        }
        self.capacity
    }
}

/// `capacity` empty slots.
fn empty_slots<V>(capacity: usize) -> (r: Vec<Option<V>>)
    ensures
        r@ == Seq::new(capacity as nat, |i: int| None::<V>),
{
    let mut buffer: Vec<Option<V>> = Vec::new();
    let mut i: usize = 0;
    while i < capacity
        invariant
            i <= capacity,
            buffer@ == Seq::new(i as nat, |j: int| None::<V>),
        decreases capacity - i,
    {
        buffer.push(None);
        i = i + 1;
    }
    buffer
}

impl<V> Clone for Broadcast<V> {
    /// A ring of the same capacity and cursor whose slots are all empty.
    fn clone(&self) -> (r: Self)
        ensures
            r@ == (RingState { slots: RingState::<V>::empty(self@.capacity() as nat).slots, cursor: self@.cursor }),
    {
        proof {
            use_type_invariant(self);
        }
        Broadcast { buffer: empty_slots(self.capacity), capacity: self.capacity, cursor: self.cursor }
    }
}

impl<V> Storage<V> for Broadcast<V> {
    open spec fn inserted(before: Self, value: V, after: Self) -> bool {
        after@ == before@.push(value)
    }

    open spec fn refreshable(&self) -> bool {
        true
    }

    open spec fn refreshed(before: Self, after: Self) -> bool {
        after@ == before@
    }

    open spec fn readable(&self, cursor: usize) -> bool {
        cursor == self@.cursor || cursor < self@.capacity()
    }

    open spec fn item_at(&self, cursor: usize) -> Option<(V, usize)> {
        self@.read(cursor as int)
    }

    open spec fn prev_cursor(&self) -> usize {
        prev_slot(self@.cursor, self@.capacity()) as usize
    }

    open spec fn sizeable(&self, cursor: usize) -> bool {
        cursor <= self@.capacity()
    }

    open spec fn size_at(&self, cursor: usize) -> usize {
        self@.behind(cursor as int) as usize
    }

    /// Writes `value` at the cursor and moves the cursor on, wrapping.
    fn insert(&mut self, value: V) {
        proof {
            use_type_invariant(&*self);
        }
        self.write_slot(value);
    }

    /// A ring has nothing to refresh.
    fn refresh(&mut self) {
    }

    fn get_item(&self, cursor: usize) -> (r: Option<(&V, usize)>) {
        proof {
            use_type_invariant(self);
        }
        if cursor == self.cursor {
            return None;
        }
        match &self.buffer[cursor] {
            Some(v) => Some((v, self.next_cursor(cursor))),
            None => None,
        }
    }

    fn get_prev_cursor(&self) -> (r: usize) {
        proof {
            use_type_invariant(self);
        }
        prev_index(self.cursor, self.capacity)
    }

    fn size_hint(&self, cursor: usize) -> (r: usize) {
        proof {
            use_type_invariant(self);
        }
        if cursor < self.cursor {
            self.cursor - cursor
        } else {
            self.capacity - (cursor - self.cursor)
        }
    }
}

} // verus!

verus! {

/// What `size_hint` counts for a reader behind the writer is what it has
/// left to read: after fewer than a full ring of writes since a reader
/// caught up, a reader that has read `i` of them has the rest ahead.
/// (A reader level with the writer is counted a full ring.)
pub proof fn lemma_size_counts_unread<V>(ring: RingState<V>, values: Seq<V>, i: int)
    requires
        ring.well_formed(),
        values.len() < ring.capacity(),
        0 <= i < values.len(),
    ensures
        push_all(ring, values).behind(slot_after(ring.cursor, i, ring.capacity())) == values.len() - i,
{
    lemma_readers_see_every_write(ring, values);
}

} // verus!
