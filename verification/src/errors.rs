//! Error taxonomy of the coordination kernel.
//!
//! Configuration errors are reported by constructors; invariant violations
//! (such as releasing more permits than a semaphore was configured for) are
//! reported by the operation that would break the invariant and leave the
//! state unchanged.

use vstd::prelude::*;

verus! {

/// Everything that a kernel operation can reject.
#[derive(Clone, Copy, Debug, PartialEq, Eq, Structural)]
pub enum KernelError {
    /// A capacity, pool size, or kind count of zero was given to a constructor.
    ZeroCapacity,
    /// A semaphore was asked to start with more permits than its maximum.
    InitialExceedsMax,
    /// A release would push a permit count above its configured maximum.
    PermitOverflow,
    /// A resource ring needs at least two actors to form a cycle.
    TooFewActors,
    /// A sequencer was given an empty step pattern.
    EmptyPattern,
    /// A sequencer pattern names a step outside the declared step range.
    StepOutOfRange,
}

} // verus!
