use vstd::prelude::*;

verus! {

/// How many flow groups serve `keys` keys when a group takes up to
/// `max_load` keys: one more than the number of full loads.
pub open spec fn group_count(keys: nat, max_load: nat) -> nat {
    keys / max_load + 1
}

/// What a refresh asks of the runtime: groups to start, by index, and how
/// many of the last groups to stop.
pub struct RefreshPlan {
    pub spawn: Vec<usize>,
    pub close: usize,
}

/// Keeps as many flow groups running as the registered keys call for.
pub struct Flow {
    max_load: usize,
    groups: usize,
}

impl Flow {
    pub closed spec fn spec_max_load(&self) -> usize {
        self.max_load
    }

    /// How many groups are running.
    pub closed spec fn groups(&self) -> usize {
        self.groups
    }

    /// The most keys a group takes.
    pub fn max_load(&self) -> (r: usize)
        ensures
            r == self.spec_max_load(),
    {
        self.max_load
    }

    /// No group runs yet.
    pub fn new(max_load: usize) -> (r: Self)
        ensures
            r.spec_max_load() == max_load,
            r.groups() == 0,
    {
        Flow { max_load, groups: 0 }
    }

    /// Brings the number of groups to the count that `keys` registered keys
    /// call for: new groups get the next indices, surplus groups are the
    /// last ones. The count divides by `max_load`, which must not be 0.
    pub fn refresh(&mut self, keys: usize) -> (plan: RefreshPlan)
        requires
            old(self).spec_max_load() > 0,
            keys / old(self).spec_max_load() < usize::MAX,
        ensures
            final(self).spec_max_load() == old(self).spec_max_load(),
            final(self).groups() == group_count(keys as nat, old(self).spec_max_load() as nat),
            final(self).groups() == keys / old(self).spec_max_load() + 1,
            old(self).groups() <= final(self).groups() ==> {
                &&& plan.close == 0
                &&& plan.spawn@ == Seq::new(
                    (final(self).groups() - old(self).groups()) as nat,
                    |i: int| (old(self).groups() + i) as usize,
                )
            },
            old(self).groups() > final(self).groups() ==> {
                &&& plan.spawn@.len() == 0
                &&& plan.close == old(self).groups() - final(self).groups()
            },
    {
        let group_size = keys / self.max_load + 1;
        let mut spawn: Vec<usize> = Vec::new();
        let mut close: usize = 0;
        let start = self.groups;
        loop
            invariant
                self.max_load == old(self).spec_max_load(),
                start == old(self).groups(),
                group_size == keys / self.max_load + 1,
                start <= group_size ==> {
                    &&& start <= self.groups <= group_size
                    &&& close == 0
                    &&& spawn@ == Seq::new((self.groups - start) as nat, |i: int| (start + i) as usize)
                },
                start > group_size ==> {
                    &&& group_size <= self.groups <= start
                    &&& spawn@.len() == 0
                    &&& close == start - self.groups
                },
            ensures
                self.groups == group_size,
                self.max_load == old(self).spec_max_load(),
                start <= group_size ==> {
                    &&& close == 0
                    &&& spawn@ == Seq::new((self.groups - start) as nat, |i: int| (start + i) as usize)
                },
                start > group_size ==> {
                    &&& spawn@.len() == 0
                    &&& close == start - self.groups
                },
            decreases if self.groups < group_size {
                group_size - self.groups
            } else {
                self.groups - group_size
            },
        {
            if self.groups < group_size {
                spawn.push(self.groups);
                self.groups = self.groups + 1;
                proof {
                    assert(spawn@ =~= Seq::new((self.groups - start) as nat, |i: int| (start + i) as usize));
                }
            } else if self.groups > group_size {
                self.groups = self.groups - 1;
                close = close + 1;
            } else {
                break;
            }
        }
        RefreshPlan { spawn, close }
    }
}

} // verus!
