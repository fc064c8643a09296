//! Reader/writer gate: many concurrent readers or one exclusive writer.
//!
//! Tracked here are the active reader count, whether a writer is inside, and
//! how many writers are waiting.  Its invariant is the exclusion law: a
//! writer inside means zero readers inside, and readers inside mean no
//! writer.  The admission policy is an explicit configuration:
//!
//! * reader priority — readers are admitted whenever no writer is inside,
//!   even while writers wait.  A continuous stream of readers can then
//!   delay a writer arbitrarily; that starvation is the documented price of
//!   the policy, not a defect.
//! * writer priority — new readers are refused as soon as a writer waits,
//!   so writers get in as soon as the current readers drain.

use vstd::prelude::*;

verus! {

/// Which side a contended gate favors.  An explicit choice, because either
/// one starves the other side under sustained load.
#[derive(Clone, Copy, Debug, PartialEq, Eq, Structural)]
pub enum GatePolicy {
    /// Admit readers whenever no writer is inside; writers may starve.
    ReaderPriority,
    /// Refuse new readers while a writer waits; readers may starve.
    WriterPriority,
}

/// One admission transition, for stating laws over whole histories.
pub enum GateOp {
    /// A reader tries to enter.
    BeginRead,
    /// A reader leaves.
    EndRead,
    /// A writer announces itself as waiting.
    RequestWrite,
    /// A waiting writer tries to enter.
    BeginWrite,
    /// The writer leaves.
    EndWrite,
}

/// Admits many concurrent readers or one exclusive writer.
pub struct ReaderWriterGate {
    /// The configured admission policy.
    pub policy: GatePolicy,
    /// Readers currently inside their critical section.
    pub active_readers: usize,
    /// Whether a writer is currently inside its critical section.
    pub writer_active: bool,
    /// Writers registered as waiting to enter.
    pub waiting_writers: usize,
}

impl ReaderWriterGate {
    /// Exclusion invariant: a writer inside means no readers inside.
    pub open spec fn wf(&self) -> bool {
        self.writer_active ==> self.active_readers == 0
    }

    /// A reader may enter now: no writer is inside, and under writer
    /// priority additionally no writer is waiting.
    pub open spec fn read_admissible(&self) -> bool {
        !self.writer_active && (self.policy is ReaderPriority || self.waiting_writers == 0)
    }

    /// A writer may enter now: nobody is inside at all.
    pub open spec fn write_admissible(&self) -> bool {
        !self.writer_active && self.active_readers == 0
    }

    /// Creates an idle gate with the given policy.
    pub fn new(policy: GatePolicy) -> (g: ReaderWriterGate)
        ensures
            g.wf(),
            g.policy == policy,
            g.active_readers == 0,
            !g.writer_active,
            g.waiting_writers == 0,
    {
        ReaderWriterGate { policy, active_readers: 0, writer_active: false, waiting_writers: 0 }
    }

    /// A reader tries to enter; succeeds iff admissible under the policy.
    /// A refused reader retries or parks in its driver.
    pub fn try_begin_read(&mut self) -> (entered: bool)
        requires
            old(self).wf(),
            old(self).active_readers < usize::MAX,
        ensures
            final(self).wf(),
            entered == old(self).read_admissible(),
            entered ==> *final(self) == (ReaderWriterGate {
                active_readers: (old(self).active_readers + 1) as usize,
                ..*old(self)
            }),
            !entered ==> *final(self) == *old(self),
            gate_step(*old(self), GateOp::BeginRead, *final(self)),
    {
        if self.writer_active {
            return false;
        }
        match self.policy {
            GatePolicy::ReaderPriority => {},
            GatePolicy::WriterPriority => {
                if self.waiting_writers > 0 {
                    return false;
                }
            },
        }
        self.active_readers = self.active_readers + 1;
        true
    }

    /// A reader leaves.  The last reader out lets a writer in.
    pub fn end_read(&mut self)
        requires
            old(self).wf(),
            old(self).active_readers > 0,
        ensures
            final(self).wf(),
            *final(self) == (ReaderWriterGate {
                active_readers: (old(self).active_readers - 1) as usize,
                ..*old(self)
            }),
            gate_step(*old(self), GateOp::EndRead, *final(self)),
    {
        self.active_readers = self.active_readers - 1;
    }

    /// A writer announces itself as waiting.  Under writer priority this
    /// immediately stops new readers from entering.
    pub fn request_write(&mut self)
        requires
            old(self).wf(),
            old(self).waiting_writers < usize::MAX,
        ensures
            final(self).wf(),
            *final(self) == (ReaderWriterGate {
                waiting_writers: (old(self).waiting_writers + 1) as usize,
                ..*old(self)
            }),
            gate_step(*old(self), GateOp::RequestWrite, *final(self)),
    {
        self.waiting_writers = self.waiting_writers + 1;
    }

    /// A waiting writer tries to enter; succeeds iff nobody is inside.  A
    /// refused writer stays registered and retries in its driver.
    pub fn try_begin_write(&mut self) -> (entered: bool)
        requires
            old(self).wf(),
            old(self).waiting_writers > 0,
        ensures
            final(self).wf(),
            entered == old(self).write_admissible(),
            entered ==> *final(self) == (ReaderWriterGate {
                writer_active: true,
                waiting_writers: (old(self).waiting_writers - 1) as usize,
                ..*old(self)
            }),
            !entered ==> *final(self) == *old(self),
            gate_step(*old(self), GateOp::BeginWrite, *final(self)),
    {
        if self.writer_active || self.active_readers > 0 {
            return false;
        }
        self.writer_active = true;
        self.waiting_writers = self.waiting_writers - 1;
        true
    }

    /// The writer leaves, reopening admission.
    pub fn end_write(&mut self)
        requires
            old(self).wf(),
            old(self).writer_active,
        ensures
            final(self).wf(),
            *final(self) == (ReaderWriterGate { writer_active: false, ..*old(self) }),
            gate_step(*old(self), GateOp::EndWrite, *final(self)),
    {
        self.writer_active = false;
    }

    /// Readers currently inside.  Non-authoritative inspection.
    pub fn reader_count(&self) -> (n: usize)
        ensures
            n == self.active_readers,
    {
        self.active_readers
    }

    /// Whether a writer is inside.  Non-authoritative inspection.
    pub fn is_writing(&self) -> (b: bool)
        ensures
            b == self.writer_active,
    {
        self.writer_active
    }

    /// Writers currently waiting.  Non-authoritative inspection.
    pub fn writers_waiting(&self) -> (n: usize)
        ensures
            n == self.waiting_writers,
    {
        self.waiting_writers
    }

    /// Exclusion law: a reader and a writer are never inside their critical
    /// sections at the same time.
    pub proof fn lemma_reader_writer_exclusion(&self)
        requires
            self.wf(),
        ensures
            !(self.writer_active && self.active_readers > 0),
    {
    }

    /// While any reader is inside, no writer can enter — the half of the
    /// reader-priority starvation story that holds under every policy.
    pub proof fn lemma_readers_delay_writer(&self)
        requires
            self.wf(),
            self.active_readers > 0,
        ensures
            !self.write_admissible(),
    {
    }

    /// Under reader priority, waiting writers never block a reader: as long
    /// as no writer is inside, the next reader is admissible.  Together
    /// with `lemma_readers_delay_writer` this is the documented starvation
    /// trade-off: a continuous stream of readers delays a writer forever.
    pub proof fn lemma_reader_priority_admits_readers(&self)
        requires
            self.wf(),
            self.policy is ReaderPriority,
            !self.writer_active,
        ensures
            self.read_admissible(),
    {
    }
}

/// How one transition transforms the admission state: exactly the
/// relation the five operations ensure between their pre- and
/// post-states, refused entries included.  A transition is only related
/// to states where it makes sense (a reader can only leave while readers
/// are inside, and so on).
pub open spec fn gate_step(pre: ReaderWriterGate, op: GateOp, post: ReaderWriterGate) -> bool {
    match op {
        GateOp::BeginRead => {
            &&& pre.active_readers < usize::MAX
            &&& if pre.read_admissible() {
                post == (ReaderWriterGate {
                    active_readers: (pre.active_readers + 1) as usize,
                    ..pre
                })
            } else {
                post == pre
            }
        },
        GateOp::EndRead => {
            &&& pre.active_readers > 0
            &&& post == (ReaderWriterGate {
                active_readers: (pre.active_readers - 1) as usize,
                ..pre
            })
        },
        GateOp::RequestWrite => {
            &&& pre.waiting_writers < usize::MAX
            &&& post == (ReaderWriterGate {
                waiting_writers: (pre.waiting_writers + 1) as usize,
                ..pre
            })
        },
        GateOp::BeginWrite => {
            &&& pre.waiting_writers > 0
            &&& if pre.write_admissible() {
                post == (ReaderWriterGate {
                    writer_active: true,
                    waiting_writers: (pre.waiting_writers - 1) as usize,
                    ..pre
                })
            } else {
                post == pre
            }
        },
        GateOp::EndWrite => {
            &&& pre.writer_active
            &&& post == (ReaderWriterGate { writer_active: false, ..pre })
        },
    }
}

/// `states` records a whole history: each consecutive pair of states is
/// related by the corresponding transition.
pub open spec fn gate_run(states: Seq<ReaderWriterGate>, ops: Seq<GateOp>) -> bool {
    &&& states.len() == ops.len() + 1
    &&& forall|i: int| 0 <= i < ops.len() ==> gate_step(#[trigger] states[i], ops[i], states[i + 1])
}

/// One transition keeps the exclusion invariant intact.
pub proof fn lemma_gate_step_preserves_wf(
    pre: ReaderWriterGate,
    op: GateOp,
    post: ReaderWriterGate,
)
    requires
        pre.wf(),
        gate_step(pre, op, post),
    ensures
        post.wf(),
{
}

/// Exclusion law over whole histories: start any interleaving of reader
/// and writer transitions from a well-formed gate, and after every prefix
/// a reader and a writer are never inside their critical sections at the
/// same time.
pub proof fn lemma_exclusion_every_prefix(states: Seq<ReaderWriterGate>, ops: Seq<GateOp>, n: int)
    requires
        gate_run(states, ops),
        states[0].wf(),
        0 <= n < states.len(),
    ensures
        states[n].wf(),
        !(states[n].writer_active && states[n].active_readers > 0),
    decreases n,
{
    if n > 0 {
        lemma_exclusion_every_prefix(states, ops, n - 1);
        lemma_gate_step_preserves_wf(states[n - 1], ops[n - 1], states[n]);
    }
}

} // verus!
