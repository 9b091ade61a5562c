use std::ops::Deref;

use vstd::prelude::*;

verus! {

/// A reference that is never null to a value kept by a storage.
#[derive(Debug)]
pub struct NonNullRef<'a, T>(&'a T);

impl<'a, T> NonNullRef<'a, T> {
    /// The value referred to.
    pub closed spec fn target(&self) -> T {
        *self.0
    }
}

impl<'a, T> Clone for NonNullRef<'a, T> {
    fn clone(&self) -> (r: Self)
        ensures
            r.target() == self.target(),
    {
        NonNullRef(self.0)
    }
}

impl<'a, T> Deref for NonNullRef<'a, T> {
    type Target = T;

    fn deref(&self) -> (r: &T)
        ensures
            *r == self.target(),
    {
        self.0
    }
}

impl<'a, T> From<&'a T> for NonNullRef<'a, T> {
    fn from(value: &'a T) -> (r: Self)
        ensures
            r.target() == *value,
    {
        NonNullRef(value)
    }
}

impl<'a, T> vstd::std_specs::convert::FromSpecImpl<&'a T> for NonNullRef<'a, T> {
    open spec fn obeys_from_spec() -> bool {
        true
    }

    closed spec fn from_spec(v: &'a T) -> Self {
        NonNullRef(v)
    }
}

} // verus!
