use vstd::prelude::*;

verus! {

/// A cell that hands out its value by shared or unique borrow.
pub struct SyncCell<T>(T);

impl<T> View for SyncCell<T> {
    type V = T;

    closed spec fn view(&self) -> T {
        self.0
    }
}

impl<T> SyncCell<T> {
    pub fn new(value: T) -> (r: Self)
        ensures
            r@ == value,
    {
        SyncCell(value)
    }

    pub fn get(&self) -> (r: &T)
        ensures
            *r == self@,
    {
        &self.0
    }

    pub fn get_mut(&mut self) -> (r: &mut T)
        ensures
            *r == old(self)@,
            final(self)@ == *final(r),
    {
        &mut self.0
    }
}

} // verus!
