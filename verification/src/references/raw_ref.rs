use std::ops::Deref;

use vstd::prelude::*;

verus! {

/// A shared reference to a value kept by a storage, handed to readers.
#[derive(Debug)]
pub struct RawRef<'a, T>(&'a T);

impl<'a, T> RawRef<'a, T> {
    /// The value referred to.
    pub closed spec fn target(&self) -> T {
        *self.0
    }
}

impl<'a, T> Clone for RawRef<'a, T> {
    fn clone(&self) -> (r: Self)
        ensures
            r.target() == self.target(),
    {
        RawRef(self.0)
    }
}

impl<'a, T> Deref for RawRef<'a, T> {
    type Target = T;

    fn deref(&self) -> (r: &T)
        ensures
            *r == self.target(),
    {
        self.0
    }
}

impl<'a, T> From<&'a T> for RawRef<'a, T> {
    fn from(value: &'a T) -> (r: Self)
        ensures
            r.target() == *value,
    {
        RawRef(value)
    }
}

impl<'a, T> vstd::std_specs::convert::FromSpecImpl<&'a T> for RawRef<'a, T> {
    open spec fn obeys_from_spec() -> bool {
        true
    }

    closed spec fn from_spec(v: &'a T) -> Self {
        RawRef(v)
    }
}

} // verus!
