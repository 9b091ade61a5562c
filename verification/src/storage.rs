use vstd::prelude::*;

verus! {

/// Forgets the borrow in an item handed out by a storage.
pub open spec fn owned_item<V>(r: Option<(&V, usize)>) -> Option<(V, usize)> {
    match r {
        Some((v, next)) => Some((*v, next)),
        None => None,
    }
}

/// A store of the values a topic has produced, read through cursors.
///
/// Each reader keeps its own cursor. `get_item` hands out the value under a
/// cursor together with the cursor of the following value, and `size_hint`
/// says how many values lie ahead of a cursor.
pub trait Storage<V>: Sized + Clone {
    /// Whether `after` is what `before` becomes when `value` is inserted.
    spec fn inserted(before: Self, value: V, after: Self) -> bool;

    /// Whether `refresh` can run without overflow.
    spec fn refreshable(&self) -> bool;

    /// Whether `after` is what `before` becomes on a refresh.
    spec fn refreshed(before: Self, after: Self) -> bool;

    /// Whether `cursor` may be handed to `get_item`.
    spec fn readable(&self, cursor: usize) -> bool;

    /// The value under `cursor` and the cursor that follows it, if any.
    spec fn item_at(&self, cursor: usize) -> Option<(V, usize)>;

    /// The cursor that a new reader starts from.
    spec fn prev_cursor(&self) -> usize;

    /// Whether `cursor` may be handed to `size_hint`.
    spec fn sizeable(&self, cursor: usize) -> bool;

    /// How many values lie ahead of `cursor`.
    spec fn size_at(&self, cursor: usize) -> usize;

    fn insert(&mut self, value: V)
        ensures
            Self::inserted(*old(self), value, *final(self)),
    ;

    fn refresh(&mut self)
        requires
            old(self).refreshable(),
        ensures
            Self::refreshed(*old(self), *final(self)),
    ;

    fn get_item(&self, cursor: usize) -> (r: Option<(&V, usize)>)
        requires
            self.readable(cursor),
        ensures
            owned_item(r) == self.item_at(cursor),
    ;

    fn get_prev_cursor(&self) -> (r: usize)
        ensures
            r == self.prev_cursor(),
    ;

    fn size_hint(&self, cursor: usize) -> (r: usize)
        requires
            self.sizeable(cursor),
        ensures
            r == self.size_at(cursor),
    ;
}

} // verus!
