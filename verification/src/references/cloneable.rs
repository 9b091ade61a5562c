use std::ops::Deref;

use vstd::prelude::*;

verus! {

/// An owned clone of a value kept by a storage, handed to readers.
#[derive(Debug)]
pub struct Cloneable<T>(T);

impl<T> Cloneable<T> {
    /// The value held.
    pub closed spec fn target(&self) -> T {
        self.0
    }
}

impl<T: Clone> Clone for Cloneable<T> {
    fn clone(&self) -> (r: Self)
        ensures
            cloned(self.target(), r.target()),
    {
        Cloneable(self.0.clone())
    }
}

impl<T> Deref for Cloneable<T> {
    type Target = T;

    fn deref(&self) -> (r: &T)
        ensures
            *r == self.target(),
    {
        &self.0
    }
}

impl<T: Clone> Cloneable<T> {
    /// Holds a clone of `value`.
    pub fn from_ref(value: &T) -> (r: Self)
        ensures
            cloned(*value, r.target()),
    {
        Cloneable(value.clone())
    }
}

} // verus!

verus! {

impl<T: Clone> From<&T> for Cloneable<T> {
    fn from(value: &T) -> (r: Self)
        ensures
            cloned(*value, r.target()),
    {
        Cloneable(value.clone())
    }
}

impl<T: Clone> vstd::std_specs::convert::FromSpecImpl<&T> for Cloneable<T> {
    /// A clone of an arbitrary type is not a function of its source.
    open spec fn obeys_from_spec() -> bool {
        false
    }

    closed spec fn from_spec(v: &T) -> Self {
        Cloneable(*v)
    }
}

} // verus!
