use vstd::prelude::*;

use crate::idset::insert_id;
use crate::ring::{wrap_inc, wrapping_inc};
use crate::storages::Storage;

verus! {

/// What the readers of one multiple stream share: the next stream id, and
/// the stream ids waiting for the source to be polled.
pub struct StreamShared {
    next_stream_id: usize,
    waiting: Vec<usize>,
}

impl StreamShared {
    pub closed spec fn next_id(&self) -> usize {
        self.next_stream_id
    }

    pub closed spec fn waiting(&self) -> Set<usize> {
        self.waiting@.to_set()
    }

    pub closed spec fn wf(&self) -> bool {
        self.waiting@.no_duplicates()
    }

    /// The first reader has id 0; the next gets 1.
    pub fn new() -> (r: Self)
        ensures
            r.wf(),
            r.next_id() == 1,
            r.waiting() == Set::<usize>::empty(),
    {
        let r = StreamShared { next_stream_id: 1, waiting: Vec::new() };
        proof {
            assert(r.waiting@.to_set() =~= Set::<usize>::empty());
        }
        r
    }

    /// Hands out the next stream id; the counter wraps as an atomic does.
    pub fn new_stream_id(&mut self) -> (r: usize)
        requires
            old(self).wf(),
        ensures
            final(self).wf(),
            r == old(self).next_id(),
            final(self).next_id() == wrap_inc(old(self).next_id()),
            final(self).waiting() == old(self).waiting(),
    {
        let id = self.next_stream_id;
        self.next_stream_id = wrapping_inc(id);
        id
    }

    /// Records a stream id to wake when the source is next polled.
    pub fn wait(&mut self, stream_id: usize)
        requires
            old(self).wf(),
        ensures
            final(self).wf(),
            final(self).next_id() == old(self).next_id(),
            final(self).waiting() == old(self).waiting().insert(stream_id),
    {
        insert_id(&mut self.waiting, stream_id);
    }

    /// Takes all waiting stream ids out, to be woken.
    pub fn wake_all(&mut self) -> (woken: Vec<usize>)
        requires
            old(self).wf(),
        ensures
            final(self).wf(),
            final(self).next_id() == old(self).next_id(),
            final(self).waiting() == Set::<usize>::empty(),
            woken@.no_duplicates(),
            woken@.to_set() == old(self).waiting(),
    {
        let mut woken: Vec<usize> = Vec::new();
        std::mem::swap(&mut woken, &mut self.waiting);
        proof {
            assert(self.waiting@.to_set() =~= Set::<usize>::empty());
        }
        woken
    }
}

/// One reader of a keyed storage fed by a shared source: its cursor and
/// stream id.
pub struct MultipleStream {
    cursor: usize,
    stream_id: usize,
}

/// What a reader does after a round of polling the source.
pub enum RoundStep {
    /// The round stored values: wake the waiting readers and look again.
    Retry,
    /// Nothing new: wait.
    Wait,
}

impl MultipleStream {
    pub closed spec fn spec_cursor(&self) -> usize {
        self.cursor
    }

    pub closed spec fn stream_id(&self) -> usize {
        self.stream_id
    }

    /// This reader's stream id.
    pub fn id(&self) -> (r: usize)
        ensures
            r == self.stream_id(),
    {
        self.stream_id
    }

    /// The reader that mounts the source: cursor 0, stream id 0.
    pub fn new() -> (r: Self)
        ensures
            r.spec_cursor() == 0,
            r.stream_id() == 0,
    {
        MultipleStream { cursor: 0, stream_id: 0 }
    }

    /// A further reader: it starts from the storage's latest value and gets
    /// the next stream id.
    pub fn fork<V, St: Storage<usize, V>>(&self, shared: &mut StreamShared, storage: &St) -> (r: Self)
        requires
            old(shared).wf(),
        ensures
            final(shared).wf(),
            r.spec_cursor() == storage.prev_cursor(),
            r.stream_id() == old(shared).next_id(),
            final(shared).next_id() == wrap_inc(old(shared).next_id()),
            final(shared).waiting() == old(shared).waiting(),
    {
        MultipleStream { cursor: storage.get_prev_cursor(), stream_id: shared.new_stream_id() }
    }

    /// The first step of a poll: the value under the cursor, if the storage
    /// has one, moving the cursor past it.
    pub fn next_item<'a, V, St: Storage<usize, V>>(&mut self, storage: &'a St) -> (r: Option<&'a V>)
        requires
            storage.readable(old(self).spec_cursor()),
        ensures
            final(self).stream_id() == old(self).stream_id(),
            match storage.item_at(old(self).spec_cursor()) {
                Some((v, next)) => r == Some(&v) && final(self).spec_cursor() == next,
                None => r is None && final(self).spec_cursor() == old(self).spec_cursor(),
            },
    {
        match storage.get_item(self.cursor) {
            Some((item, cursor)) => {
                self.cursor = cursor;
                Some(item)
            },
            None => None,
        }
    }

    /// The step after a round of polling the source that this reader ran:
    /// a round that stored values wakes the waiting readers and looks
    /// again; one that stored nothing waits, without recording the reader.
    pub fn after_round(&self, shared: &mut StreamShared, stored: usize) -> (r: (RoundStep, Vec<usize>))
        requires
            old(shared).wf(),
        ensures
            final(shared).wf(),
            final(shared).next_id() == old(shared).next_id(),
            stored > 0 <==> r.0 is Retry,
            stored > 0 ==> {
                &&& r.1@.no_duplicates()
                &&& r.1@.to_set() == old(shared).waiting()
                &&& final(shared).waiting() == Set::<usize>::empty()
            },
            stored == 0 ==> r.1@.len() == 0 && final(shared).waiting() == old(shared).waiting(),
    {
        if stored > 0 {
            let woken = shared.wake_all();
            (RoundStep::Retry, woken)
        } else {
            (RoundStep::Wait, Vec::new())
        }
    }

    /// When another reader is polling the source: record this reader to be
    /// woken after that round.
    pub fn wait(&self, shared: &mut StreamShared)
        requires
            old(shared).wf(),
        ensures
            final(shared).wf(),
            final(shared).next_id() == old(shared).next_id(),
            final(shared).waiting() == old(shared).waiting().insert(self.stream_id()),
    {
        shared.wait(self.stream_id);
    }

    /// Makes the storage read `key`; the cursor stays where it is.
    pub fn with_key<V, St: Storage<usize, V>>(&self, storage: &mut St, key: usize)
        ensures
            St::keyed(*old(storage), key, *final(storage)),
    {
        storage.with_key(key);
    }

    /// How many values lie ahead of the cursor, with no upper bound.
    pub fn size_hint<V, St: Storage<usize, V>>(&self, storage: &St) -> (r: (usize, Option<usize>))
        requires
            storage.sizeable(self.spec_cursor()),
        ensures
            r.0 == storage.size_at(self.spec_cursor()),
            r.1 is None,
    {
        (storage.size_hint(self.cursor), None)
    }
}

} // verus!
