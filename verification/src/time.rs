use std::time::Duration;

use vstd::prelude::*;

verus! {

/// A topic that yields the time at every tick of a period.
pub struct Interval {
    dur: Duration,
}

impl Interval {
    pub closed spec fn period(&self) -> Duration {
        self.dur
    }

    pub fn new(dur: Duration) -> (r: Self)
        ensures
            r.period() == dur,
    {
        Interval { dur }
    }

    /// The period, from which the topic's name is made.
    pub fn duration(&self) -> (r: Duration)
        ensures
            r == self.period(),
    {
        self.dur
    }
}

/// A topic that yields the time once, a period after it starts.
pub struct Timeout {
    dur: Duration,
}

impl Timeout {
    pub closed spec fn period(&self) -> Duration {
        self.dur
    }

    pub fn new(dur: Duration) -> (r: Self)
        ensures
            r.period() == dur,
    {
        Timeout { dur }
    }

    /// The period, from which the topic's name is made.
    pub fn duration(&self) -> (r: Duration)
        ensures
            r == self.period(),
    {
        self.dur
    }
}

} // verus!
