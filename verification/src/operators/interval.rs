use std::time::Duration;

use vstd::prelude::*;

use crate::ring::RingState;
use crate::storages::Broadcast;

verus! {

/// A topic that yields the time at every tick of a period.
pub struct Interval {
    duration: Duration,
}

impl Interval {
    pub closed spec fn period(&self) -> Duration {
        self.duration
    }

    pub fn new(duration: Duration) -> (r: Self)
        ensures
            r.period() == duration,
    {
        Interval { duration }
    }

    /// The period, which is the topic id.
    pub fn duration(&self) -> (r: Duration)
        ensures
            r == self.period(),
    {
        self.duration
    }

    /// The storage of the topic: a broadcast ring of 128 slots.
    pub fn storage<T>(&self) -> (r: Broadcast<T>)
        ensures
            r@ == RingState::<T>::empty(128),
    {
        Broadcast::new(128)
    }
}

} // verus!
