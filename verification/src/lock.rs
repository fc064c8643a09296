//! Exclusive critical-section guard with binary-semaphore semantics.
//!
//! The lock records which task currently owns the critical section, if any.
//! Entering succeeds only while no task holds the lock, and leaving requires
//! naming the holding task, so a verified caller cannot release a lock it
//! does not hold.  Verified callers cannot panic, so every path that enters
//! a critical section is a path the verifier has checked through to the
//! matching exit; a driver wrapping unverified work keeps the same guarantee
//! by releasing on unwind.

use vstd::prelude::*;

verus! {

/// Mutual-exclusion guard: at most one task inside the critical section.
pub struct MutualExclusionLock {
    /// The task inside the critical section, if any.
    pub holder: Option<u64>,
}

impl MutualExclusionLock {
    /// Creates a free lock.
    pub fn new() -> (l: MutualExclusionLock)
        ensures
            l.holder is None,
    {
        MutualExclusionLock { holder: None }
    }

    /// Attempts to enter the critical section on behalf of `task`; succeeds
    /// iff the lock is free right now.
    pub fn try_enter(&mut self, task: u64) -> (entered: bool)
        ensures
            entered == (old(self).holder is None),
            entered ==> final(self).holder == Some(task),
            !entered ==> *final(self) == *old(self),
    {
        match self.holder {
            None => {
                self.holder = Some(task);
                true
            },
            Some(_) => false,
        }
    }

    /// Leaves the critical section.  Only the holding task may exit, which
    /// rules out releasing a lock that was never taken.
    pub fn exit(&mut self, task: u64)
        requires
            old(self).holder == Some(task),
        ensures
            final(self).holder is None,
    {
        self.holder = None;
    }

    /// The task currently holding the lock, if any.  Inspection only.
    pub fn held_by(&self) -> (h: Option<u64>)
        ensures
            h == self.holder,
    {
        self.holder
    }
}

} // verus!
