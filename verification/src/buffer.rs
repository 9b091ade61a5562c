use vstd::prelude::*;

use crate::idset::{insert_id, remove_id};
use crate::ring::{
    next_index, prev_index, prev_slot, slot_cloned, wrap_dec, wrap_inc, wrapping_dec,
    wrapping_inc, RingState,
};

verus! {

/// What a reader's poll comes to before the source stream is touched.
pub enum Receive<T> {
    /// The reader is behind the writer: the value under its cursor.
    Ready(Option<T>),
    /// The reader has caught up: the source must be polled for a new batch.
    Fetch,
}

/// What a reader's poll comes to after a batch was fetched.
pub enum Fetched<T> {
    /// The batch moved the writer past the reader: the value under the
    /// reader's cursor, and the stream ids to wake.
    Ready(Option<T>, Vec<usize>),
    /// Nothing new for the reader; its stream id now waits for a wake-up.
    Pending,
}

/// What dropping a reader comes to.
pub enum Dropped {
    /// That was the last reader: the buffer is to be released.
    Released,
    /// Other readers remain; these stream ids are to be woken.
    Woken(Vec<usize>),
}

/// A ring shared by the readers of one source stream. Whichever reader has
/// caught up with the writer fetches the next batch from the source into the
/// ring; readers that find nothing new wait to be woken.
pub struct SharedBuffer<T> {
    capacity: usize,
    batch_size: usize,
    strong: usize,
    next_stream_id: usize,
    buffer: Vec<Option<T>>,
    cursor: usize,
    waiting: Vec<usize>,
}

impl<T> SharedBuffer<T> {
    /// The ring of slots and the writer's cursor.
    pub closed spec fn ring(&self) -> RingState<T> {
        RingState { slots: self.buffer@, cursor: self.cursor as int }
    }

    /// How many values one fetch takes from the source at most.
    pub closed spec fn spec_batch_size(&self) -> usize {
        self.batch_size
    }

    /// How many readers hold the buffer.
    pub closed spec fn strong(&self) -> usize {
        self.strong
    }

    /// The id the next new reader gets.
    pub closed spec fn next_id(&self) -> usize {
        self.next_stream_id
    }

    /// The stream ids waiting to be woken.
    pub closed spec fn waiting(&self) -> Set<usize> {
        self.waiting@.to_set()
    }

    pub closed spec fn wf(&self) -> bool {
        &&& self.capacity > 1
        &&& self.buffer@.len() == self.capacity
        &&& self.cursor < self.capacity
        &&& self.batch_size > 0
        &&& self.waiting@.no_duplicates()
    }

    /// Whether a capacity and batch size are accepted: the ring holds at
    /// least two slots, a batch at least one value, and a ring of three or
    /// more slots holds at least three batches.
    pub open spec fn accepts(capacity: usize, batch_size: usize) -> bool {
        &&& capacity > 1
        &&& batch_size > 0
        &&& (capacity >= 3 ==> capacity / batch_size >= 3)
    }

    /// An empty ring with one holder; the first new reader gets id 1. The
    /// capacity and batch size must be ones that `accepts`.
    pub fn new(capacity: usize, batch_size: usize) -> (r: Self)
        requires
            Self::accepts(capacity, batch_size),
        ensures
            r.wf(),
            r.ring() == RingState::<T>::empty(capacity as nat),
            r.spec_batch_size() == batch_size,
            r.strong() == 1,
            r.next_id() == 1,
            r.waiting() == Set::<usize>::empty(),
    {
        let mut buffer: Vec<Option<T>> = Vec::new();
        let mut i: usize = 0;
        while i < capacity
            invariant
                i <= capacity,
                buffer@ == Seq::new(i as nat, |j: int| None::<T>),
            decreases capacity - i,
        {
            buffer.push(None);
            i = i + 1;
        }
        let r = SharedBuffer {
            capacity,
            batch_size,
            strong: 1,
            next_stream_id: 1,
            buffer,
            cursor: 0,
            waiting: Vec::new(),
        };
        proof {
            assert(r.waiting@.to_set() =~= Set::<usize>::empty());
        }
        r
    }

    /// The writer's cursor.
    pub fn cursor(&self) -> (r: usize)
        ensures
            r == self.ring().cursor,
    {
        self.cursor
    }

    pub fn capacity(&self) -> (r: usize)
        requires
            self.wf(),
        ensures
            r == self.ring().capacity(),
    {
        self.capacity
    }

    /// How many values one fetch takes at most.
    pub fn batch_size(&self) -> (r: usize)
        ensures
            r == self.spec_batch_size(),
    {
        self.batch_size
    }

    /// The first step of a reader's poll: a reader behind the writer gets
    /// the value under its cursor; one level with the writer must fetch.
    pub fn poll_receive(&self, stream_cursor: usize) -> (r: Receive<T>)
        where T: Clone
        requires
            self.wf(),
            stream_cursor < self.ring().capacity(),
        ensures
            stream_cursor == self.ring().cursor <==> r is Fetch,
            r matches Receive::Ready(v) ==> slot_cloned(self.ring().slots[stream_cursor as int], v),
    {
        if stream_cursor == self.cursor {
            Receive::Fetch
        } else {
            Receive::Ready(self.buffer[stream_cursor].clone())
        }
    }

    /// Writes a value at the cursor and moves the cursor on, wrapping.
    fn update_item(&mut self, item: T)
        requires
            old(self).wf(),
        ensures
            final(self).wf(),
            final(self).ring() == old(self).ring().push(item),
            final(self).spec_batch_size() == old(self).spec_batch_size(),
            final(self).strong() == old(self).strong(),
            final(self).next_id() == old(self).next_id(),
            final(self).waiting() == old(self).waiting(),
    {
        let cursor = self.cursor;
        self.buffer.set(cursor, Some(item));
        self.cursor = next_index(cursor, self.capacity);
    }

    /// Stores a value fetched from the source during a poll; `fetched` is
    /// how many values this fetch stored before. Says whether the fetch may
    /// take another value.
    pub fn push_fetched(&mut self, item: T, fetched: usize) -> (more: bool)
        requires
            old(self).wf(),
            fetched < old(self).spec_batch_size(),
        ensures
            final(self).wf(),
            final(self).ring() == old(self).ring().push(item),
            final(self).spec_batch_size() == old(self).spec_batch_size(),
            final(self).strong() == old(self).strong(),
            final(self).next_id() == old(self).next_id(),
            final(self).waiting() == old(self).waiting(),
            more == (fetched + 1 < old(self).spec_batch_size()),
    {
        self.update_item(item);
        fetched + 1 < self.batch_size
    }

    /// Takes all waiting stream ids out, to be woken.
    fn wake_all(&mut self) -> (woken: Vec<usize>)
        requires
            old(self).wf(),
        ensures
            final(self).wf(),
            woken@.no_duplicates(),
            woken@.to_set() == old(self).waiting(),
            final(self).waiting() == Set::<usize>::empty(),
            final(self).ring() == old(self).ring(),
            final(self).spec_batch_size() == old(self).spec_batch_size(),
            final(self).strong() == old(self).strong(),
            final(self).next_id() == old(self).next_id(),
    {
        let mut woken: Vec<usize> = Vec::new();
        std::mem::swap(&mut woken, &mut self.waiting);
        proof {
            assert(self.waiting@.to_set() =~= Set::<usize>::empty());
        }
        woken
    }

    /// Registers a stream id to be woken on the next write.
    pub fn wait(&mut self, stream_id: usize)
        requires
            old(self).wf(),
        ensures
            final(self).wf(),
            final(self).waiting() == old(self).waiting().insert(stream_id),
            final(self).ring() == old(self).ring(),
            final(self).spec_batch_size() == old(self).spec_batch_size(),
            final(self).strong() == old(self).strong(),
            final(self).next_id() == old(self).next_id(),
    {
        insert_id(&mut self.waiting, stream_id);
    }

    /// The last step of a poll that fetched: if the writer has moved past
    /// the reader, every waiting stream is woken and the reader gets the
    /// value under its cursor; else the reader waits.
    pub fn finish_fetch(&mut self, stream_cursor: usize, stream_id: usize) -> (r: Fetched<T>)
        where T: Clone
        requires
            old(self).wf(),
            stream_cursor < old(self).ring().capacity(),
        ensures
            final(self).wf(),
            final(self).ring() == old(self).ring(),
            final(self).spec_batch_size() == old(self).spec_batch_size(),
            final(self).strong() == old(self).strong(),
            final(self).next_id() == old(self).next_id(),
            stream_cursor == old(self).ring().cursor <==> r is Pending,
            r is Pending ==> final(self).waiting() == old(self).waiting().insert(stream_id),
            r matches Fetched::Ready(v, woken) ==> {
                &&& slot_cloned(old(self).ring().slots[stream_cursor as int], v)
                &&& woken@.no_duplicates()
                &&& woken@.to_set() == old(self).waiting()
                &&& final(self).waiting() == Set::<usize>::empty()
            },
    {
        if stream_cursor != self.cursor {
            let woken = self.wake_all();
            Fetched::Ready(self.buffer[stream_cursor].clone(), woken)
        } else {
            self.wait(stream_id);
            Fetched::Pending
        }
    }

    /// Writes a value at the cursor, moves the cursor on, and hands back the
    /// waiting stream ids to wake.
    pub fn insert(&mut self, item: T) -> (woken: Vec<usize>)
        requires
            old(self).wf(),
        ensures
            final(self).wf(),
            final(self).ring() == old(self).ring().push(item),
            woken@.no_duplicates(),
            woken@.to_set() == old(self).waiting(),
            final(self).waiting() == Set::<usize>::empty(),
            final(self).spec_batch_size() == old(self).spec_batch_size(),
            final(self).strong() == old(self).strong(),
            final(self).next_id() == old(self).next_id(),
    {
        self.update_item(item);
        self.wake_all()
    }

    /// Where a new reader starts: at the latest value if the slot before the
    /// writer holds one, else level with the writer.
    pub fn new_stream_cursor(&self) -> (r: usize)
        requires
            self.wf(),
        ensures
            r == Self::start_cursor(self.ring()),
            r < self.ring().capacity(),
            self.ring().cursor > 0 && self.ring().slots[self.ring().cursor - 1] is Some ==> r == self.ring().cursor - 1,
            self.ring().cursor == 0 && self.ring().slots[self.ring().capacity() - 1] is Some ==> r
                == self.ring().capacity() - 1,
            r == self.ring().cursor || self.ring().slots[r as int] is Some,
    {
        proof {
            Self::lemma_start_cursor(self.ring());
        }
        let cursor = prev_index(self.cursor, self.capacity);
        if self.buffer[cursor].is_none() {
            self.cursor
        } else {
            cursor
        }
    }

    /// A new reader starts on the latest value: the slot before the writer
    /// when it holds a value, else the writer's own slot; never on another
    /// empty slot.
    pub proof fn lemma_start_cursor(ring: RingState<T>)
        requires
            ring.well_formed(),
            ring.capacity() <= usize::MAX,
        ensures
            Self::start_cursor(ring) < ring.capacity(),
            ring.cursor > 0 && ring.slots[ring.cursor - 1] is Some ==> Self::start_cursor(ring) == ring.cursor - 1,
            ring.cursor == 0 && ring.slots[ring.capacity() - 1] is Some ==> Self::start_cursor(ring)
                == ring.capacity() - 1,
            ring.cursor > 0 && ring.slots[ring.cursor - 1] is None ==> Self::start_cursor(ring) == ring.cursor,
            ring.cursor == 0 && ring.slots[ring.capacity() - 1] is None ==> Self::start_cursor(ring) == ring.cursor,
            Self::start_cursor(ring) == ring.cursor || ring.slots[Self::start_cursor(ring) as int] is Some,
    {
    }

    /// The cursor a new reader of `ring` starts at.
    pub open spec fn start_cursor(ring: RingState<T>) -> usize {
        let prev = prev_slot(ring.cursor, ring.capacity());
        if ring.slots[prev] is None {
            ring.cursor as usize
        } else {
            prev as usize
        }
    }

    /// Counts one more holder and hands out the next stream id; both
    /// counters wrap as atomic counters do.
    pub fn new_stream_id(&mut self) -> (r: usize)
        requires
            old(self).wf(),
        ensures
            final(self).wf(),
            r == old(self).next_id(),
            final(self).next_id() == wrap_inc(old(self).next_id()),
            final(self).strong() == wrap_inc(old(self).strong()),
            final(self).ring() == old(self).ring(),
            final(self).spec_batch_size() == old(self).spec_batch_size(),
            final(self).waiting() == old(self).waiting(),
    {
        self.strong = wrapping_inc(self.strong);
        let id = self.next_stream_id;
        self.next_stream_id = wrapping_inc(id);
        id
    }

    /// Counts one holder less. When that was the last, the buffer is to be
    /// released; else the stream stops waiting and every waiting stream is
    /// woken.
    pub fn drop_stream(&mut self, stream_id: usize) -> (r: Dropped)
        requires
            old(self).wf(),
        ensures
            final(self).wf(),
            final(self).strong() == wrap_dec(old(self).strong()),
            final(self).ring() == old(self).ring(),
            final(self).next_id() == old(self).next_id(),
            final(self).spec_batch_size() == old(self).spec_batch_size(),
            old(self).strong() == 1 <==> r is Released,
            r is Released ==> final(self).waiting() == old(self).waiting(),
            r matches Dropped::Woken(woken) ==> {
                &&& woken@.no_duplicates()
                &&& woken@.to_set() == old(self).waiting().remove(stream_id)
                &&& final(self).waiting() == Set::<usize>::empty()
            },
    {
        let before = self.strong;
        self.strong = wrapping_dec(before);
        if before == 1 {
            return Dropped::Released;
        }
        remove_id(&mut self.waiting, stream_id);
        Dropped::Woken(self.wake_all())
    }
}

} // verus!
