use vstd::prelude::*;

pub use crate::buffer::{Fetched, Receive};
use crate::idset::insert_id;
use crate::ring::{
    lemma_readers_see_every_write, next_index, next_slot, prev_index, prev_slot, push_all, slot_cloned,
    RingState,
};

verus! {

/// A ring shared by the readers of one source stream, each reader holding
/// its own cursor in a `SharedStream`. A reader that has caught up with the
/// writer fetches the next batch from the source.
pub struct SharedBuffer<T> {
    buffer: Vec<Option<T>>,
    cursor: usize,
    stream_id_last: usize,
    batch_size: usize,
    waiting: Vec<usize>,
}

impl<T> SharedBuffer<T> {
    /// The ring of slots and the writer's cursor.
    pub closed spec fn ring(&self) -> RingState<T> {
        RingState { slots: self.buffer@, cursor: self.cursor as int }
    }

    /// How many values one fetch takes from the source at most.
    pub closed spec fn spec_batch_size(&self) -> usize {
        self.batch_size
    }

    /// The id handed to the latest reader.
    pub closed spec fn last_id(&self) -> usize {
        self.stream_id_last
    }

    /// The stream ids waiting to be woken.
    pub closed spec fn waiting(&self) -> Set<usize> {
        self.waiting@.to_set()
    }

    pub closed spec fn wf(&self) -> bool {
        &&& self.buffer@.len() > 1
        &&& self.cursor < self.buffer@.len()
        &&& self.batch_size > 0
        &&& self.waiting@.no_duplicates()
    }

    /// An empty ring; the source's first reader has id 0. The capacity and
    /// batch size must be ones that `buffer::SharedBuffer::accepts`.
    pub fn new(capacity: usize, batch_size: usize) -> (r: Self)
        requires
            crate::buffer::SharedBuffer::<T>::accepts(capacity, batch_size),
        ensures
            r.wf(),
            r.ring() == RingState::<T>::empty(capacity as nat),
            r.spec_batch_size() == batch_size,
            r.last_id() == 0,
            r.waiting() == Set::<usize>::empty(),
    {
        let mut buffer: Vec<Option<T>> = Vec::new();
        let mut i: usize = 0;
        while i < capacity
            invariant
                i <= capacity,
                buffer@ == Seq::new(i as nat, |j: int| None::<T>),
            decreases capacity - i,
        {
            buffer.push(None);
            i = i + 1;
        }
        let r = SharedBuffer { buffer, cursor: 0, stream_id_last: 0, batch_size, waiting: Vec::new() };
        proof {
            assert(r.waiting@.to_set() =~= Set::<usize>::empty());
        }
        r
    }

    /// Moves the writer's cursor on by one slot, wrapping.
    fn cursor(&mut self)
        requires
            old(self).wf(),
        ensures
            final(self).wf(),
            final(self).ring() == (RingState {
                cursor: next_slot(old(self).ring().cursor, old(self).ring().capacity()),
                ..old(self).ring()
            }),
            final(self).spec_batch_size() == old(self).spec_batch_size(),
            final(self).last_id() == old(self).last_id(),
            final(self).waiting() == old(self).waiting(),
    {
        self.cursor = next_index(self.cursor, self.buffer.len());
    }

    /// Stores a value fetched from the source during a poll; `fetched` is
    /// how many values this fetch stored before. Says whether the fetch may
    /// take another value.
    pub fn push_fetched(&mut self, item: T, fetched: usize) -> (more: bool)
        requires
            old(self).wf(),
            fetched < old(self).spec_batch_size(),
        ensures
            final(self).wf(),
            final(self).ring() == old(self).ring().push(item),
            final(self).spec_batch_size() == old(self).spec_batch_size(),
            final(self).last_id() == old(self).last_id(),
            final(self).waiting() == old(self).waiting(),
            more == (fetched + 1 < old(self).spec_batch_size()),
    {
        let cursor = self.cursor;
        self.buffer.set(cursor, Some(item));
        self.cursor();
        fetched + 1 < self.batch_size
    }

    /// Writes a value at the cursor, moves the cursor on, and hands back the
    /// waiting stream ids to wake.
    pub fn insert(&mut self, item: T) -> (woken: Vec<usize>)
        requires
            old(self).wf(),
        ensures
            final(self).wf(),
            final(self).ring() == old(self).ring().push(item),
            woken@.no_duplicates(),
            woken@.to_set() == old(self).waiting(),
            final(self).waiting() == Set::<usize>::empty(),
            final(self).spec_batch_size() == old(self).spec_batch_size(),
            final(self).last_id() == old(self).last_id(),
    {
        let cursor = self.cursor;
        self.buffer.set(cursor, Some(item));
        self.cursor();
        self.wake_all()
    }

    /// Registers a stream id to be woken on the next write.
    pub fn push_waker(&mut self, stream_id: usize)
        requires
            old(self).wf(),
        ensures
            final(self).wf(),
            final(self).waiting() == old(self).waiting().insert(stream_id),
            final(self).ring() == old(self).ring(),
            final(self).spec_batch_size() == old(self).spec_batch_size(),
            final(self).last_id() == old(self).last_id(),
    {
        insert_id(&mut self.waiting, stream_id);
    }

    /// Takes all waiting stream ids out, to be woken.
    pub fn wake_all(&mut self) -> (woken: Vec<usize>)
        requires
            old(self).wf(),
        ensures
            final(self).wf(),
            woken@.no_duplicates(),
            woken@.to_set() == old(self).waiting(),
            final(self).waiting() == Set::<usize>::empty(),
            final(self).ring() == old(self).ring(),
            final(self).spec_batch_size() == old(self).spec_batch_size(),
            final(self).last_id() == old(self).last_id(),
    {
        let mut woken: Vec<usize> = Vec::new();
        std::mem::swap(&mut woken, &mut self.waiting);
        proof {
            assert(self.waiting@.to_set() =~= Set::<usize>::empty());
        }
        woken
    }

    /// How many values one fetch takes at most.
    pub fn batch_size(&self) -> (r: usize)
        ensures
            r == self.spec_batch_size(),
    {
        self.batch_size
    }
}

/// One reader of a `SharedBuffer`: its cursor and stream id.
pub struct SharedStream {
    cursor: usize,
    stream_id: usize,
}

/// The cursor a new reader of `ring` starts at: the latest value if the slot
/// before the writer holds one, else level with the writer.
pub open spec fn start_cursor<T>(ring: RingState<T>) -> int {
    let prev = prev_slot(ring.cursor, ring.capacity());
    if ring.slots[prev] is Some {
        prev
    } else {
        ring.cursor
    }
}

/// How many values lie ahead of a reader at `cursor`; none when it is level
/// with the writer.
pub open spec fn ahead<T>(ring: RingState<T>, cursor: int) -> int {
    if ring.cursor == cursor {
        0
    } else if ring.cursor > cursor {
        ring.cursor - cursor
    } else {
        ring.capacity() - cursor + ring.cursor
    }
}

impl SharedStream {
    pub closed spec fn spec_cursor(&self) -> usize {
        self.cursor
    }

    pub closed spec fn stream_id(&self) -> usize {
        self.stream_id
    }

    /// This reader's stream id.
    pub fn id(&self) -> (r: usize)
        ensures
            r == self.stream_id(),
    {
        self.stream_id
    }

    /// A new shared ring over a source, and its first reader: id 0, at slot 0.
    pub fn new<T>(capacity: usize, batch_size: usize) -> (r: (SharedBuffer<T>, SharedStream))
        requires
            crate::buffer::SharedBuffer::<T>::accepts(capacity, batch_size),
        ensures
            r.0.wf(),
            r.0.ring() == RingState::<T>::empty(capacity as nat),
            r.0.spec_batch_size() == batch_size,
            r.0.last_id() == 0,
            r.0.waiting() == Set::<usize>::empty(),
            r.1.spec_cursor() == 0,
            r.1.stream_id() == 0,
    {
        (SharedBuffer::new(capacity, batch_size), SharedStream { cursor: 0, stream_id: 0 })
    }

    /// A further reader of the same ring: it starts at the latest value and
    /// gets the next stream id.
    pub fn fork<T>(&self, shared: &mut SharedBuffer<T>) -> (r: SharedStream)
        requires
            old(shared).wf(),
            old(shared).last_id() < usize::MAX,
        ensures
            final(shared).wf(),
            r.spec_cursor() == start_cursor(old(shared).ring()),
            r.spec_cursor() < old(shared).ring().capacity(),
            r.spec_cursor() == old(shared).ring().cursor || old(shared).ring().slots[r.spec_cursor() as int] is Some,
            r.spec_cursor() == old(shared).ring().cursor || r.spec_cursor() + 1 == old(shared).ring().cursor || (
            r.spec_cursor() + 1 == old(shared).ring().capacity() && old(shared).ring().cursor == 0),
            r.stream_id() == old(shared).last_id() + 1,
            final(shared).last_id() == old(shared).last_id() + 1,
            final(shared).ring() == old(shared).ring(),
            final(shared).spec_batch_size() == old(shared).spec_batch_size(),
            final(shared).waiting() == old(shared).waiting(),
    {
        let prev = prev_index(shared.cursor, shared.buffer.len());
        let cursor = if shared.buffer[prev].is_some() {
            prev
        } else {
            shared.cursor
        };
        proof {
            lemma_fork_start(old(shared).ring());
        }
        shared.stream_id_last = shared.stream_id_last + 1;
        SharedStream { cursor, stream_id: shared.stream_id_last }
    }

    /// Writes a value into the shared ring; the ids to wake come back.
    pub fn insert<T>(&self, shared: &mut SharedBuffer<T>, item: T) -> (woken: Vec<usize>)
        requires
            old(shared).wf(),
        ensures
            final(shared).wf(),
            final(shared).ring() == old(shared).ring().push(item),
            woken@.no_duplicates(),
            woken@.to_set() == old(shared).waiting(),
            final(shared).waiting() == Set::<usize>::empty(),
            final(shared).spec_batch_size() == old(shared).spec_batch_size(),
            final(shared).last_id() == old(shared).last_id(),
    {
        shared.insert(item)
    }

    fn advance<T>(&mut self, shared: &SharedBuffer<T>)
        requires
            shared.wf(),
            old(self).spec_cursor() < shared.ring().capacity(),
        ensures
            final(self).spec_cursor() == next_slot(old(self).spec_cursor() as int, shared.ring().capacity()),
            final(self).stream_id() == old(self).stream_id(),
    {
        self.cursor = next_index(self.cursor, shared.buffer.len());
    }

    /// The first step of a poll: a reader behind the writer gets the value
    /// under its cursor and moves on; one level with the writer must fetch.
    pub fn poll_receive<T: Clone>(&mut self, shared: &SharedBuffer<T>) -> (r: Receive<T>)
        requires
            shared.wf(),
            old(self).spec_cursor() < shared.ring().capacity(),
        ensures
            final(self).stream_id() == old(self).stream_id(),
            old(self).spec_cursor() == shared.ring().cursor <==> r is Fetch,
            r is Fetch ==> final(self).spec_cursor() == old(self).spec_cursor(),
            r matches Receive::Ready(v) ==> {
                &&& slot_cloned(shared.ring().slots[old(self).spec_cursor() as int], v)
                &&& final(self).spec_cursor() == next_slot(old(self).spec_cursor() as int, shared.ring().capacity())
            },
    {
        if self.cursor == shared.cursor {
            Receive::Fetch
        } else {
            let v = shared.buffer[self.cursor].clone();
            self.advance(shared);
            Receive::Ready(v)
        }
    }

    /// The last step of a poll that fetched: if the writer has moved past
    /// the reader, every waiting stream is woken and the reader gets the
    /// value under its cursor and moves on; else the reader waits.
    pub fn finish_fetch<T: Clone>(&mut self, shared: &mut SharedBuffer<T>) -> (r: Fetched<T>)
        requires
            old(shared).wf(),
            old(self).spec_cursor() < old(shared).ring().capacity(),
        ensures
            final(shared).wf(),
            final(shared).ring() == old(shared).ring(),
            final(shared).spec_batch_size() == old(shared).spec_batch_size(),
            final(shared).last_id() == old(shared).last_id(),
            final(self).stream_id() == old(self).stream_id(),
            old(self).spec_cursor() == old(shared).ring().cursor <==> r is Pending,
            r is Pending ==> {
                &&& final(shared).waiting() == old(shared).waiting().insert(old(self).stream_id())
                &&& final(self).spec_cursor() == old(self).spec_cursor()
            },
            r matches Fetched::Ready(v, woken) ==> {
                &&& slot_cloned(old(shared).ring().slots[old(self).spec_cursor() as int], v)
                &&& woken@.no_duplicates()
                &&& woken@.to_set() == old(shared).waiting()
                &&& final(shared).waiting() == Set::<usize>::empty()
                &&& final(self).spec_cursor() == next_slot(old(self).spec_cursor() as int, old(shared).ring().capacity())
            },
    {
        if self.cursor != shared.cursor {
            let woken = shared.wake_all();
            let v = shared.buffer[self.cursor].clone();
            self.advance(shared);
            Fetched::Ready(v, woken)
        } else {
            shared.push_waker(self.stream_id);
            Fetched::Pending
        }
    }

    /// Registers this reader to be woken on the next write, when it could
    /// not fetch itself.
    pub fn wait<T>(&self, shared: &mut SharedBuffer<T>)
        requires
            old(shared).wf(),
        ensures
            final(shared).wf(),
            final(shared).waiting() == old(shared).waiting().insert(self.stream_id()),
            final(shared).ring() == old(shared).ring(),
            final(shared).spec_batch_size() == old(shared).spec_batch_size(),
            final(shared).last_id() == old(shared).last_id(),
    {
        shared.push_waker(self.stream_id);
    }

    /// How many values lie ahead of this reader, with no upper bound.
    pub fn size_hint<T>(&self, shared: &SharedBuffer<T>) -> (r: (usize, Option<usize>))
        requires
            shared.wf(),
            self.spec_cursor() < shared.ring().capacity(),
        ensures
            r.0 == ahead(shared.ring(), self.spec_cursor() as int),
            r.1 is None,
    {
        if shared.cursor == self.cursor {
            (0, None)
        } else {
            let len = if shared.cursor > self.cursor {
                shared.cursor - self.cursor
            } else {
                shared.buffer.len() - self.cursor + shared.cursor
            };
            (len, None)
        }
    }
}

} // verus!

verus! {

/// Each read takes one value off what lies ahead of a reader: when a
/// reader behind the writer reads and moves on, one value fewer lies
/// ahead of it.
pub proof fn lemma_read_takes_one<T>(ring: RingState<T>, cursor: int)
    requires
        ring.well_formed(),
        0 <= cursor < ring.capacity(),
        cursor != ring.cursor,
    ensures
        ahead(ring, next_slot(cursor, ring.capacity())) == ahead(ring, cursor) - 1,
        ahead(ring, cursor) > 0,
{
}

/// Where a forked reader starts: on the latest value when the slot before
/// the writer holds one, else level with the writer. It never starts on an
/// empty slot other than the writer's, nor further back than one slot.
pub proof fn lemma_fork_start<T>(ring: RingState<T>)
    requires
        ring.well_formed(),
    ensures
        0 <= start_cursor(ring) < ring.capacity(),
        start_cursor(ring) == ring.cursor || ring.slots[start_cursor(ring)] is Some,
        start_cursor(ring) == ring.cursor || start_cursor(ring) + 1 == ring.cursor || (start_cursor(ring) + 1
            == ring.capacity() && ring.cursor == 0),
        ring.cursor > 0 && ring.slots[ring.cursor - 1] is Some ==> start_cursor(ring) == ring.cursor - 1,
        ring.cursor == 0 && ring.slots[ring.capacity() - 1] is Some ==> start_cursor(ring) == ring.capacity() - 1,
        ring.cursor > 0 && ring.slots[ring.cursor - 1] is None ==> start_cursor(ring) == ring.cursor,
        ring.cursor == 0 && ring.slots[ring.capacity() - 1] is None ==> start_cursor(ring) == ring.cursor,
        ahead(ring, start_cursor(ring)) <= 1,
{
}

/// What lies ahead of a reader is what was written since it caught up:
/// a reader level with the writer has nothing ahead, and after fewer than
/// a full ring of writes it has exactly those writes ahead.
pub proof fn lemma_ahead_counts_writes<T>(ring: RingState<T>, values: Seq<T>)
    requires
        ring.well_formed(),
        values.len() < ring.capacity(),
    ensures
        ahead(ring, ring.cursor) == 0,
        ahead(push_all(ring, values), ring.cursor) == values.len(),
{
    lemma_readers_see_every_write(ring, values);
}

} // verus!
