pub mod broadcast;
pub mod disperse;
pub mod manager;
pub mod mem_cache;
pub mod sync_cell;

pub use broadcast::Broadcast;
pub use disperse::Disperse;
pub use manager::{Scope, StorageManager};
pub use mem_cache::MemCache;
pub use sync_cell::SyncCell;

use vstd::prelude::*;

verus! {

/// A store of topic values that are filed under keys; a reader reads the
/// values of the key it has chosen with `with_key`.
pub trait Storage<K, V>: Sized {
    /// The key that `insert_with_default` files under.
    spec fn default_key() -> K;

    /// Whether `insert` may be called with `key`.
    spec fn insertable(&self, key: K) -> bool;

    /// Whether `after` is what `before` becomes when `value` is filed under `key`.
    spec fn inserted(before: Self, key: K, value: V, after: Self) -> bool;

    /// Whether `after` is what `before` becomes on a refresh.
    spec fn refreshed(before: Self, after: Self) -> bool;

    /// Whether `cursor` may be handed to `get_item`.
    spec fn readable(&self, cursor: usize) -> bool;

    /// The value under `cursor` for the chosen key and the cursor after it, if any.
    spec fn item_at(&self, cursor: usize) -> Option<(V, usize)>;

    /// The cursor that a new reader of the chosen key starts from.
    spec fn prev_cursor(&self) -> usize;

    /// Whether `cursor` may be handed to `size_hint`.
    spec fn sizeable(&self, cursor: usize) -> bool;

    /// How many values of the chosen key lie ahead of `cursor`.
    spec fn size_at(&self, cursor: usize) -> usize;

    /// Whether `after` is `before` reading `key`.
    spec fn keyed(before: Self, key: K, after: Self) -> bool;

    fn insert_with_default(&mut self, value: V)
        requires
            old(self).insertable(Self::default_key()),
        ensures
            Self::inserted(*old(self), Self::default_key(), value, *final(self)),
    ;

    fn insert(&mut self, key: K, value: V)
        requires
            old(self).insertable(key),
        ensures
            Self::inserted(*old(self), key, value, *final(self)),
    ;

    fn refresh(&mut self)
        ensures
            Self::refreshed(*old(self), *final(self)),
    ;

    fn get_item(&self, cursor: usize) -> (r: Option<(&V, usize)>)
        requires
            self.readable(cursor),
        ensures
            crate::storage::owned_item(r) == self.item_at(cursor),
    ;

    fn get_prev_cursor(&self) -> (r: usize)
        ensures
            r == self.prev_cursor(),
    ;

    fn size_hint(&self, cursor: usize) -> (r: usize)
        requires
            self.sizeable(cursor),
        ensures
            r == self.size_at(cursor),
    ;

    fn with_key(&mut self, key: K)
        ensures
            Self::keyed(*old(self), key, *final(self)),
    ;
}

} // verus!
