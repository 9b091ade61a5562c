use std::marker::PhantomData;

use vstd::prelude::*;

use crate::ring::RingState;
use crate::storages::Broadcast;

verus! {

/// A topic whose source never yields: it only names a topic id.
pub struct Empty<I, O, E> {
    topic_id: I,
    _marker: PhantomData<(O, E)>,
}

impl<I, O, E> Empty<I, O, E> {
    pub closed spec fn spec_topic_id(&self) -> I {
        self.topic_id
    }

    pub fn new(topic_id: I) -> (r: Self)
        ensures
            r.spec_topic_id() == topic_id,
    {
        Empty { topic_id, _marker: PhantomData }
    }

    /// The topic id.
    pub fn topic_id(&self) -> (r: &I)
        ensures
            *r == self.spec_topic_id(),
    {
        &self.topic_id
    }

    /// The storage of the topic: a broadcast ring of 1024 slots.
    pub fn storage(&self) -> (r: Broadcast<O>)
        ensures
            r@ == RingState::<O>::empty(1024),
    {
        Broadcast::new(1024)
    }
}

} // verus!
