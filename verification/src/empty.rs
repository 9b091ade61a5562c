use std::marker::PhantomData;

use vstd::prelude::*;

verus! {

/// A topic whose source never yields, named by a label.
pub struct EmptyTopic<T, L, S> {
    label: L,
    marker: PhantomData<(T, S)>,
}

impl<T, L, S> EmptyTopic<T, L, S> {
    pub closed spec fn spec_label(&self) -> L {
        self.label
    }

    pub fn new(label: L) -> (r: Self)
        ensures
            r.spec_label() == label,
    {
        EmptyTopic { label, marker: PhantomData }
    }

    /// The label, from which the topic's name is made.
    pub fn label(&self) -> (r: &L)
        ensures
            *r == self.spec_label(),
    {
        &self.label
    }
}

impl<T, S> Default for EmptyTopic<T, &'static str, S> {
    /// The topic labelled "default".
    fn default() -> (r: Self)
        ensures
            r.spec_label()@ == "default"@,
    {
        Self::new("default")
    }
}

} // verus!
