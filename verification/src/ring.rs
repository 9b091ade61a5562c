use vstd::prelude::*;

verus! {

/// The abstract state of a ring of slots: the slots, and the slot that the
/// next write goes to.
pub struct RingState<V> {
    pub slots: Seq<Option<V>>,
    pub cursor: int,
}

impl<V> RingState<V> {
    /// A ring of `capacity` empty slots, written from slot 0.
    pub open spec fn empty(capacity: nat) -> Self {
        RingState { slots: Seq::new(capacity, |i: int| None), cursor: 0 }
    }

    pub open spec fn capacity(self) -> int {
        self.slots.len() as int
    }

    /// The ring after `value` is written at the cursor and the cursor moves on.
    pub open spec fn push(self, value: V) -> Self {
        RingState {
            slots: self.slots.update(self.cursor, Some(value)),
            cursor: next_slot(self.cursor, self.capacity()),
        }
    }

    /// What a reader at `cursor` gets: nothing when it has caught up with the
    /// writer, else the slot's value (if written) and the next cursor.
    pub open spec fn read(self, cursor: int) -> Option<(V, usize)> {
        if cursor == self.cursor {
            None
        } else {
            match self.slots[cursor] {
                Some(v) => Some((v, next_slot(cursor, self.capacity()) as usize)),
                None => None,
            }
        }
    }

    /// How many slots a reader at `cursor` is behind the writer; a reader
    /// level with the writer counts the whole ring.
    pub open spec fn behind(self, cursor: int) -> int {
        if cursor < self.cursor {
            self.cursor - cursor
        } else {
            self.capacity() - cursor + self.cursor
        }
    }

    pub open spec fn well_formed(self) -> bool {
        &&& self.capacity() > 0
        &&& 0 <= self.cursor < self.capacity()
    }
}

/// The slot that follows `cursor` in a ring of `capacity` slots.
pub open spec fn next_slot(cursor: int, capacity: int) -> int {
    if cursor + 1 < capacity {
        cursor + 1
    } else {
        0
    }
}

/// The slot that precedes `cursor` in a ring of `capacity` slots.
pub open spec fn prev_slot(cursor: int, capacity: int) -> int {
    if cursor == 0 {
        capacity - 1
    } else {
        cursor - 1
    }
}

/// Advances a cursor of a ring of `capacity` slots by one slot, wrapping to 0.
pub fn next_index(cursor: usize, capacity: usize) -> (r: usize)
    requires
        cursor < capacity,
    ensures
        r == next_slot(cursor as int, capacity as int),
        r < capacity,
{
    if cursor + 1 < capacity {
        cursor + 1
    } else {
        0
    }
}

/// Steps a cursor of a ring of `capacity` slots back by one slot, wrapping to the last slot.
pub fn prev_index(cursor: usize, capacity: usize) -> (r: usize)
    requires
        cursor < capacity,
    ensures
        r == prev_slot(cursor as int, capacity as int),
        r < capacity,
{
    if cursor == 0 {
        capacity - 1
    } else {
        cursor - 1
    }
}

/// Stepping forward then back returns to the starting slot.
pub proof fn lemma_prev_of_next(cursor: int, capacity: int)
    requires
        0 <= cursor < capacity,
    ensures
        prev_slot(next_slot(cursor, capacity), capacity) == cursor,
        next_slot(prev_slot(cursor, capacity), capacity) == cursor,
{
}

} // verus!

verus! {

/// Whether `copy` is a clone of `slot`: both empty, or both full with a clone
/// of the value.
pub open spec fn slot_cloned<T: Clone>(slot: Option<T>, copy: Option<T>) -> bool {
    match slot {
        None => copy is None,
        Some(v) => copy is Some && cloned(v, copy->0),
    }
}

/// `x + 1`, wrapping to 0 past `usize::MAX`, as an atomic counter adds.
pub open spec fn wrap_inc(x: usize) -> usize {
    if x == usize::MAX {
        0
    } else {
        (x + 1) as usize
    }
}

/// `x - 1`, wrapping to `usize::MAX` below 0, as an atomic counter subtracts.
pub open spec fn wrap_dec(x: usize) -> usize {
    if x == 0 {
        usize::MAX
    } else {
        (x - 1) as usize
    }
}

pub fn wrapping_inc(x: usize) -> (r: usize)
    ensures
        r == wrap_inc(x),
{
    if x == usize::MAX {
        0
    } else {
        x + 1
    }
}

pub fn wrapping_dec(x: usize) -> (r: usize)
    ensures
        r == wrap_dec(x),
{
    if x == 0 {
        usize::MAX
    } else {
        x - 1
    }
}

} // verus!

verus! {

/// A reader that joins right after a write starts at that write: the slot
/// before the writer's new cursor is the slot just written, and holds the
/// value.
pub proof fn lemma_join_after_push<V>(ring: RingState<V>, value: V)
    requires
        ring.well_formed(),
    ensures
        prev_slot(ring.push(value).cursor, ring.capacity()) == ring.cursor,
        ring.push(value).slots[ring.cursor] == Some(value),
        ring.push(value).well_formed(),
{
}

} // verus!

verus! {

/// The slot `steps` slots after `cursor` in a ring of `capacity` slots,
/// for up to a full turn.
pub open spec fn slot_after(cursor: int, steps: int, capacity: int) -> int {
    if cursor + steps < capacity {
        cursor + steps
    } else {
        cursor + steps - capacity
    }
}

/// The ring after `values` are written one by one, in order.
pub open spec fn push_all<V>(ring: RingState<V>, values: Seq<V>) -> RingState<V>
    decreases values.len(),
{
    if values.len() == 0 {
        ring
    } else {
        push_all(ring, values.drop_last()).push(values.last())
    }
}

/// No value is lost while a reader is less than a full ring behind: a
/// reader whose cursor stood at the writer's cursor reads back every value
/// written since, in order, and then finds nothing.
pub proof fn lemma_readers_see_every_write<V>(ring: RingState<V>, values: Seq<V>)
    requires
        ring.well_formed(),
        values.len() < ring.capacity(),
    ensures
        push_all(ring, values).well_formed(),
        push_all(ring, values).capacity() == ring.capacity(),
        push_all(ring, values).cursor == slot_after(ring.cursor, values.len() as int, ring.capacity()),
        forall|i: int| 0 <= i < values.len() ==> #[trigger] push_all(ring, values).read(
            slot_after(ring.cursor, i, ring.capacity()),
        ) == Some((values[i], slot_after(ring.cursor, i + 1, ring.capacity()) as usize)),
        push_all(ring, values).read(slot_after(ring.cursor, values.len() as int, ring.capacity())) is None,
    decreases values.len(),
{
    let c = ring.cursor;
    let cap = ring.capacity();
    let n = values.len() as int;
    if n > 0 {
        let prefix = values.drop_last();
        lemma_readers_see_every_write(ring, prefix);
        let before = push_all(ring, prefix);
        let after = push_all(ring, values);
        assert(after == before.push(values.last()));
        assert forall|i: int| 0 <= i < n implies #[trigger] after.read(slot_after(c, i, cap)) == Some(
            (values[i], slot_after(c, i + 1, cap) as usize),
        ) by {
            if i < n - 1 {
                assert(prefix[i] == values[i]);
                assert(before.read(slot_after(c, i, cap)) == Some((prefix[i], slot_after(c, i + 1, cap) as usize)));
                assert(slot_after(c, i, cap) != slot_after(c, n - 1, cap));
            }
        }
    }
}

} // verus!
