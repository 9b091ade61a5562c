use std::sync::atomic::{AtomicBool, Ordering};

use vstd::prelude::*;

verus! {

/// A spin lock over one atomic flag.
pub struct VLock {
    pub is_locked: AtomicBool,
}

/// Proof of holding a `VLock`; `release` lets it go.
pub struct VLockGuard<'a> {
    lock: &'a VLock,
}

impl VLock {
    /// An unlocked lock.
    pub fn new() -> (r: Self) {
        VLock { is_locked: AtomicBool::new(false) }
    }

    /// Takes the lock if it is free: a relaxed look first, then a swap of
    /// `false` for `true`. Whether it succeeds rests on the other threads,
    /// so only this is stated: a guard, when given, is a guard of this lock.
    pub fn try_lock(&self) -> (r: Option<VLockGuard<'_>>)
        ensures
            r matches Some(g) ==> g.lock() == self,
    {
        if !self.is_locked.load(Ordering::Relaxed) && self.is_locked.compare_exchange(
            false,
            true,
            Ordering::AcqRel,
            Ordering::Acquire,
        ).is_ok() {
            return Some(VLockGuard { lock: self });
        }
        None
    }
}

impl<'a> VLockGuard<'a> {
    pub closed spec fn lock(&self) -> &'a VLock {
        self.lock
    }

    /// Frees the lock.
    pub fn release(self) {
        self.lock.is_locked.store(false, Ordering::Release);
    }
}

} // verus!
