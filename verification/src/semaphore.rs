//! Counting semaphore with FIFO-fair blocking acquisition.
//!
//! The semaphore is modeled with explicit state: the available permit count,
//! the configured maximum, and the queue of task ids parked in a blocking
//! acquire, oldest first.  A blocking acquire either takes a permit at once
//! or appends the caller to the waiter queue; a release hands one unit to
//! each of the oldest waiters before any surplus returns to the free count,
//! so wakeups are FIFO with respect to arrival.  Releasing past the
//! configured maximum is rejected and leaves the state unchanged.
//!
//! Ghost counters record the completed acquisitions and released units, and
//! well-formedness ties them to the live count: after any sequence of
//! operations the available count equals the initial count plus releases
//! minus completed acquisitions, and a permit is never handed out while the
//! count is zero.

use vstd::prelude::*;

use crate::errors::KernelError;

verus! {

/// One semaphore operation, for stating laws over whole histories.
pub enum SemOp {
    /// A blocking acquire by the given task.
    Acquire(u64),
    /// A non-blocking acquire.
    TryAcquire,
    /// A release of the given number of units.
    Release(usize),
}

/// Counting acquire/release primitive with FIFO-fair blocking acquire.
pub struct CountingSemaphore {
    /// Permits currently available.
    pub count: usize,
    /// Configured maximum the count may ever reach.
    pub max: usize,
    /// Task ids blocked in `acquire`, oldest first.
    pub waiters: Vec<u64>,
    /// Permit count the semaphore was created with.
    pub initial: Ghost<nat>,
    /// Acquisitions completed so far (immediate grants and wakeups alike).
    pub acquired: Ghost<nat>,
    /// Units released so far.
    pub released: Ghost<nat>,
}

impl CountingSemaphore {
    /// Permit accounting: the available count stays within the configured
    /// maximum, always equals the initial count plus released units minus
    /// completed acquisitions, and no permit is left free while a task waits.
    pub open spec fn wf(&self) -> bool {
        &&& self.count <= self.max
        &&& self.count + self.acquired@ == self.initial@ + self.released@
        &&& self.count > 0 ==> self.waiters@.len() == 0
    }

    /// The creation-time parameters never change.
    pub open spec fn same_config(&self, other: &Self) -> bool {
        self.max == other.max && self.initial@ == other.initial@
    }

    /// How many waiters a release of `n` units wakes: one per unit, oldest
    /// first, bounded by the number of tasks waiting.
    pub open spec fn spec_woken(&self, n: usize) -> nat {
        if n <= self.waiters@.len() {
            n as nat
        } else {
            self.waiters@.len()
        }
    }

    /// A release of `n` units fits iff the surplus left after waking waiters
    /// does not push the count past the configured maximum.
    pub open spec fn release_fits(&self, n: usize) -> bool {
        self.count + n - self.spec_woken(n) <= self.max
    }

    /// Creates a semaphore with `initial` permits and a hard maximum of
    /// `max`; an initial count above the maximum is a configuration error.
    pub fn new(initial: usize, max: usize) -> (r: Result<CountingSemaphore, KernelError>)
        ensures
            r is Ok <==> initial <= max,
            r matches Ok(s) ==> {
                &&& s.wf()
                &&& s.count == initial
                &&& s.max == max
                &&& s.waiters@.len() == 0
                &&& s.initial@ == initial
                &&& s.acquired@ == 0
                &&& s.released@ == 0
            },
            r matches Err(e) ==> e == KernelError::InitialExceedsMax,
    {
        if initial > max {
            Err(KernelError::InitialExceedsMax)
        } else {
            Ok(CountingSemaphore {
                count: initial,
                max,
                waiters: Vec::new(),
                initial: Ghost(initial as nat),
                acquired: Ghost(0),
                released: Ghost(0),
            })
        }
    }

    /// Blocking acquire for `task`: takes a permit at once when one is
    /// available, otherwise parks the caller at the tail of the FIFO waiter
    /// queue.  The result says whether the permit was granted; a `false`
    /// caller is woken only by a later `release`.
    pub fn acquire(&mut self, task: u64) -> (granted: bool)
        requires
            old(self).wf(),
            !old(self).waiters@.contains(task),
        ensures
            final(self).wf(),
            final(self).same_config(old(self)),
            granted == (old(self).count > 0),
            granted ==> {
                &&& final(self).count == old(self).count - 1
                &&& final(self).waiters@ == old(self).waiters@
                &&& final(self).acquired@ == old(self).acquired@ + 1
                &&& final(self).released@ == old(self).released@
            },
            !granted ==> {
                &&& final(self).count == 0
                &&& final(self).waiters@ == old(self).waiters@.push(task)
                &&& final(self).acquired@ == old(self).acquired@
                &&& final(self).released@ == old(self).released@
            },
            sem_step(*old(self), SemOp::Acquire(task), *final(self)),
    {
        if self.count > 0 {
            self.count = self.count - 1;
            self.acquired = Ghost(self.acquired@ + 1);
            true
        } else {
            self.waiters.push(task);
            false
        }
    }

    /// Non-blocking acquire: takes a permit iff one is available right now,
    /// and never enqueues the caller.
    pub fn try_acquire(&mut self) -> (granted: bool)
        requires
            old(self).wf(),
        ensures
            final(self).wf(),
            final(self).same_config(old(self)),
            granted == (old(self).count > 0),
            granted ==> {
                &&& final(self).count == old(self).count - 1
                &&& final(self).waiters@ == old(self).waiters@
                &&& final(self).acquired@ == old(self).acquired@ + 1
                &&& final(self).released@ == old(self).released@
            },
            !granted ==> *final(self) == *old(self),
            sem_step(*old(self), SemOp::TryAcquire, *final(self)),
    {
        if self.count > 0 {
            self.count = self.count - 1;
            self.acquired = Ghost(self.acquired@ + 1);
            true
        } else {
            false
        }
    }

    /// Releases `n` units: the oldest waiters complete their acquisitions,
    /// one per unit, and any surplus returns to the free count.  A release
    /// whose surplus would exceed the configured maximum is a logic error:
    /// it is rejected and the state is unchanged, never silently wrapped.
    /// On success the woken task ids are returned, oldest first.
    pub fn release(&mut self, n: usize) -> (r: Result<Vec<u64>, KernelError>)
        requires
            old(self).wf(),
        ensures
            final(self).wf(),
            final(self).same_config(old(self)),
            r is Ok <==> old(self).release_fits(n),
            r matches Ok(woken) ==> {
                &&& woken@ == old(self).waiters@.take(old(self).spec_woken(n) as int)
                &&& final(self).waiters@ == old(self).waiters@.skip(old(self).spec_woken(n) as int)
                &&& final(self).count == old(self).count + n - old(self).spec_woken(n)
                &&& final(self).acquired@ == old(self).acquired@ + old(self).spec_woken(n)
                &&& final(self).released@ == old(self).released@ + n
            },
            r matches Err(e) ==> e == KernelError::PermitOverflow && *final(self) == *old(self),
            sem_step(*old(self), SemOp::Release(n), *final(self)),
    {
        let w: usize = if n <= self.waiters.len() {
            n
        } else {
            self.waiters.len()
        };
        let surplus: usize = n - w;
        if surplus > self.max - self.count {
            return Err(KernelError::PermitOverflow);
        }
        let ghost orig_waiters = self.waiters@;
        let mut woken: Vec<u64> = Vec::new();
        let mut i: usize = 0;
        while i < w
            invariant
                i <= w,
                w <= orig_waiters.len(),
                woken@ == orig_waiters.take(i as int),
                self.waiters@ == orig_waiters.skip(i as int),
                self.count == old(self).count,
                self.max == old(self).max,
                self.initial@ == old(self).initial@,
                self.acquired@ == old(self).acquired@,
                self.released@ == old(self).released@,
            decreases w - i,
        {
            let id = self.waiters.remove(0);
            woken.push(id);
            proof {
                assert(woken@ =~= orig_waiters.take(i + 1));
                assert(self.waiters@ =~= orig_waiters.skip(i + 1));
            }
            i = i + 1;
        }
        self.count = self.count + surplus;
        self.acquired = Ghost(self.acquired@ + w as nat);
        self.released = Ghost(self.released@ + n as nat);
        Ok(woken)
    }

    /// Current available permits.  Non-authoritative inspection: with
    /// concurrent callers the value may be stale by the time it is read, so
    /// it must never drive a control decision.
    pub fn available_permits(&self) -> (n: usize)
        ensures
            n == self.count,
    {
        self.count
    }

    /// How many tasks are parked in a blocking acquire.  Inspection only,
    /// like `available_permits`.
    pub fn waiting_count(&self) -> (n: usize)
        ensures
            n == self.waiters@.len(),
    {
        self.waiters.len()
    }

    /// Permit-accounting law: after any sequence of operations on a
    /// well-formed semaphore created with `initial` permits, the available
    /// count equals `initial + released - acquired`, so completed
    /// acquisitions never outrun the units put in — the count cannot go
    /// negative.
    pub proof fn lemma_count_law(&self)
        requires
            self.wf(),
        ensures
            self.count + self.acquired@ == self.initial@ + self.released@,
            self.acquired@ <= self.initial@ + self.released@,
    {
    }
}

/// How one operation transforms the semaphore: exactly the relation that
/// `acquire`, `try_acquire` and `release` ensure between their pre- and
/// post-states, rejected releases and refused acquires included.
pub open spec fn sem_step(pre: CountingSemaphore, op: SemOp, post: CountingSemaphore) -> bool {
    post.same_config(&pre) && match op {
        SemOp::Acquire(task) => if pre.count > 0 {
            &&& post.count == pre.count - 1
            &&& post.waiters@ == pre.waiters@
            &&& post.acquired@ == pre.acquired@ + 1
            &&& post.released@ == pre.released@
        } else {
            &&& post.count == 0
            &&& post.waiters@ == pre.waiters@.push(task)
            &&& post.acquired@ == pre.acquired@
            &&& post.released@ == pre.released@
        },
        SemOp::TryAcquire => if pre.count > 0 {
            &&& post.count == pre.count - 1
            &&& post.waiters@ == pre.waiters@
            &&& post.acquired@ == pre.acquired@ + 1
            &&& post.released@ == pre.released@
        } else {
            post == pre
        },
        SemOp::Release(n) => if pre.release_fits(n) {
            &&& post.count == pre.count + n - pre.spec_woken(n)
            &&& post.waiters@ == pre.waiters@.skip(pre.spec_woken(n) as int)
            &&& post.acquired@ == pre.acquired@ + pre.spec_woken(n)
            &&& post.released@ == pre.released@ + n
        } else {
            post == pre
        },
    }
}

/// `states` records a whole history: each consecutive pair of states is
/// related by the corresponding operation.
pub open spec fn sem_run(states: Seq<CountingSemaphore>, ops: Seq<SemOp>) -> bool {
    &&& states.len() == ops.len() + 1
    &&& forall|i: int| 0 <= i < ops.len() ==> sem_step(#[trigger] states[i], ops[i], states[i + 1])
}

/// One operation keeps the permit accounting intact.
pub proof fn lemma_sem_step_preserves_wf(pre: CountingSemaphore, op: SemOp, post: CountingSemaphore)
    requires
        pre.wf(),
        sem_step(pre, op, post),
    ensures
        post.wf(),
{
}

/// Permit-accounting law over whole histories: start any interleaving of
/// acquire and release operations from a well-formed semaphore, and after
/// every prefix the count equals the initial count plus released units
/// minus completed acquisitions — so it can never go below zero, and no
/// acquisition completes while the count is exhausted.
pub proof fn lemma_count_law_every_prefix(
    states: Seq<CountingSemaphore>,
    ops: Seq<SemOp>,
    i: int,
)
    requires
        sem_run(states, ops),
        states[0].wf(),
        0 <= i < states.len(),
    ensures
        states[i].wf(),
        states[i].count + states[i].acquired@ == states[i].initial@ + states[i].released@,
    decreases i,
{
    if i > 0 {
        lemma_count_law_every_prefix(states, ops, i - 1);
        lemma_sem_step_preserves_wf(states[i - 1], ops[i - 1], states[i]);
    }
}

} // verus!
