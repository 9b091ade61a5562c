use vstd::prelude::*;

use crate::storage::Storage;

verus! {

/// A storage that holds one value; every refresh bumps the cursor that a
/// read hands back, so readers see the value once per refresh.
pub struct MemCache<T> {
    cache: T,
    cursor: usize,
}

impl<T> View for MemCache<T> {
    /// The cached value and the refresh count.
    type V = (T, usize);

    closed spec fn view(&self) -> (T, usize) {
        (self.cache, self.cursor)
    }
}

impl<T> MemCache<T> {
    pub fn new(cache: T) -> (r: Self)
        ensures
            r@ == (cache, 0usize),
    {
        MemCache { cache, cursor: 0 }
    }
}

impl<T: Clone> Clone for MemCache<T> {
    fn clone(&self) -> (r: Self)
        ensures
            r@.1 == self@.1,
            cloned(self@.0, r@.0),
    {
        MemCache { cache: self.cache.clone(), cursor: self.cursor }
    }
}

impl<T: Clone> Storage<T> for MemCache<T> {
    open spec fn inserted(before: Self, value: T, after: Self) -> bool {
        after@ == before@
    }

    open spec fn refreshable(&self) -> bool {
        self@.1 < usize::MAX
    }

    open spec fn refreshed(before: Self, after: Self) -> bool {
        after@ == (before@.0, (before@.1 + 1) as usize)
    }

    open spec fn readable(&self, cursor: usize) -> bool {
        true
    }

    open spec fn item_at(&self, cursor: usize) -> Option<(T, usize)> {
        Some(self@)
    }

    open spec fn prev_cursor(&self) -> usize {
        0
    }

    open spec fn sizeable(&self, cursor: usize) -> bool {
        true
    }

    open spec fn size_at(&self, cursor: usize) -> usize {
        0
    }

    /// A cache ignores inserts.
    fn insert(&mut self, value: T) {
    }

    fn refresh(&mut self) {
        self.cursor = self.cursor + 1;
    }

    fn get_item(&self, cursor: usize) -> (r: Option<(&T, usize)>) {
        Some((&self.cache, self.cursor))
    }

    fn get_prev_cursor(&self) -> (r: usize) {
        0
    }

    fn size_hint(&self, cursor: usize) -> (r: usize) {
        0
    }
}

} // verus!
