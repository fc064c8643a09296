//! Fixed-order step sequencing with one release-gate per step.
//!
//! Named steps run in a declared cyclic order; each step has a zero/one
//! permit gate, and running a step consumes its own gate and arms that of
//! the step that comes next.  A pattern slot is either one fixed step or
//! an alternating pair ("A or B"), which runs its two steps on alternate
//! visits; whichever side runs, the successor's gate is released exactly
//! once, so alternation cannot drift into double-signaling.
//!
//! The invariant is that exactly one gate is armed at any time — that of
//! the step the cycle has reached — so the declared order is the only
//! order in which steps can run.

use vstd::prelude::*;

use crate::errors::KernelError;

verus! {

/// Step index of the step named A in the classic five-step exercises.
pub const STEP_A: usize = 0;

/// Step index of the step named B.
pub const STEP_B: usize = 1;

/// Step index of the step named C.
pub const STEP_C: usize = 2;

/// Step index of the step named D.
pub const STEP_D: usize = 3;

/// Step index of the step named E.
pub const STEP_E: usize = 4;

/// One position of a sequencing pattern.
#[derive(Clone, Copy, Debug, PartialEq, Eq, Structural)]
pub enum Slot {
    /// This position always runs the given step.
    Fixed(usize),
    /// This position alternates between two steps, first one first.
    Alternating(usize, usize),
}

/// The step a slot runs on this visit, given the alternation side.
pub open spec fn slot_step(s: Slot, flip: bool) -> int {
    match s {
        Slot::Fixed(a) => a as int,
        Slot::Alternating(a, b) => if flip {
            a as int
        } else {
            b as int
        },
    }
}

/// Every step a slot can run lies below the step count.
pub open spec fn slot_ok(s: Slot, n: int) -> bool {
    match s {
        Slot::Fixed(a) => (a as int) < n,
        Slot::Alternating(a, b) => (a as int) < n && (b as int) < n,
    }
}

/// Enforces a fixed cyclic execution order among named steps.
pub struct FiniteStateSequencer {
    /// The cyclic pattern of slots.
    pub pattern: Vec<Slot>,
    /// One permit gate per step; exactly one is armed.
    pub gates: Vec<usize>,
    /// Position of the current slot in the pattern.
    pub pos: usize,
    /// Which side of an alternating slot runs on its next visit.
    pub flip: bool,
}

impl FiniteStateSequencer {
    /// Number of distinct steps.
    pub open spec fn step_count(&self) -> int {
        self.gates@.len() as int
    }

    /// The step whose gate is currently armed.
    pub open spec fn armed(&self) -> int {
        slot_step(self.pattern@[self.pos as int], self.flip)
    }

    /// Sequencer invariant: the pattern is a non-empty cycle of in-range
    /// slots, and exactly the armed step's gate holds one permit.
    pub open spec fn wf(&self) -> bool {
        &&& self.pattern@.len() > 0
        &&& self.pos < self.pattern@.len()
        &&& forall|i: int|
            0 <= i < self.pattern@.len() ==> slot_ok(#[trigger] self.pattern@[i], self.step_count())
        &&& forall|s: int|
            0 <= s < self.step_count() ==> #[trigger] self.gates@[s] == (if s == self.armed() {
                1usize
            } else {
                0usize
            })
    }

    /// Creates a sequencer over `steps` steps following `pattern`, starting
    /// at the pattern's first slot with the first alternation side armed.
    /// An empty pattern or a slot naming a step out of range is a
    /// configuration error.
    pub fn new(steps: usize, pattern: Vec<Slot>) -> (r: Result<FiniteStateSequencer, KernelError>)
        ensures
            r is Ok <==> (pattern@.len() > 0 && forall|i: int|
                0 <= i < pattern@.len() ==> slot_ok(#[trigger] pattern@[i], steps as int)),
            r matches Ok(s) ==> {
                &&& s.wf()
                &&& s.pattern@ == pattern@
                &&& s.step_count() == steps
                &&& s.pos == 0
                &&& s.flip
            },
            pattern@.len() == 0 ==> (r matches Err(e) && e == KernelError::EmptyPattern),
            pattern@.len() > 0 && r is Err ==> (r matches Err(e) && e
                == KernelError::StepOutOfRange),
    {
        if pattern.len() == 0 {
            return Err(KernelError::EmptyPattern);
        }
        let mut i: usize = 0;
        while i < pattern.len()
            invariant
                i <= pattern@.len(),
                forall|j: int| 0 <= j < i ==> slot_ok(#[trigger] pattern@[j], steps as int),
            decreases pattern@.len() - i,
        {
            let ok = match pattern[i] {
                Slot::Fixed(a) => a < steps,
                Slot::Alternating(a, b) => a < steps && b < steps,
            };
            if !ok {
                return Err(KernelError::StepOutOfRange);
            }
            i = i + 1;
        }
        let mut gates: Vec<usize> = Vec::new();
        let mut g: usize = 0;
        while g < steps
            invariant
                g <= steps,
                gates@.len() == g,
                forall|s: int| 0 <= s < g ==> gates@[s] == 0usize,
            decreases steps - g,
        {
            gates.push(0);
            g = g + 1;
        }
        let first: usize = match pattern[0] {
            Slot::Fixed(a) => a,
            Slot::Alternating(a, _) => a,
        };
        gates.set(first, 1);
        let s = FiniteStateSequencer { pattern, gates, pos: 0, flip: true };
        Ok(s)
    }

    /// Runs the step the cycle has reached: consumes its gate, advances the
    /// cycle, toggles alternation if the slot was alternating, and arms the
    /// successor's gate — exactly once.  Returns the step that ran.
    pub fn advance(&mut self) -> (step: usize)
        requires
            old(self).wf(),
        ensures
            final(self).wf(),
            final(self).pattern@ == old(self).pattern@,
            final(self).step_count() == old(self).step_count(),
            step == old(self).armed(),
            final(self).pos == (if old(self).pos + 1 == old(self).pattern@.len() {
                0int
            } else {
                old(self).pos + 1
            }),
            final(self).flip == (if old(self).pattern@[old(self).pos as int] is Alternating {
                !old(self).flip
            } else {
                old(self).flip
            }),
    {
        let cur: usize = match self.pattern[self.pos] {
            Slot::Fixed(a) => a,
            Slot::Alternating(a, b) => {
                let c = if self.flip {
                    a
                } else {
                    b
                };
                self.flip = !self.flip;
                c
            },
        };
        self.gates.set(cur, 0);
        let plen = self.pattern.len();
        self.pos = self.pos + 1;
        if self.pos == plen {
            self.pos = 0;
        }
        let next: usize = match self.pattern[self.pos] {
            Slot::Fixed(a) => a,
            Slot::Alternating(a, b) => {
                if self.flip {
                    a
                } else {
                    b
                }
            },
        };
        self.gates.set(next, 1);
        proof {
            assert forall|s: int|
                0 <= s < self.step_count() implies #[trigger] self.gates@[s] == (if s
                == self.armed() {
                1usize
            } else {
                0usize
            }) by {}
        }
        cur
    }

    /// A task responsible for `step` tries to run it: succeeds iff `step`'s
    /// gate is armed, that is, iff the cycle has reached it.  A refused
    /// task parks in its driver until its predecessor signals its step.
    pub fn try_run_step(&mut self, step: usize) -> (ran: bool)
        requires
            old(self).wf(),
            step < old(self).step_count(),
        ensures
            final(self).wf(),
            final(self).pattern@ == old(self).pattern@,
            final(self).step_count() == old(self).step_count(),
            ran == (step == old(self).armed()),
            ran ==> {
                &&& final(self).pos == (if old(self).pos + 1 == old(self).pattern@.len() {
                    0int
                } else {
                    old(self).pos + 1
                })
                &&& final(self).flip == (if old(self).pattern@[old(self).pos as int] is Alternating {
                    !old(self).flip
                } else {
                    old(self).flip
                })
            },
            !ran ==> *final(self) == *old(self),
    {
        if self.gates[step] == 0 {
            return false;
        }
        let _ran = self.advance();
        true
    }

    /// Number of distinct steps.  Inspection only.
    pub fn steps(&self) -> (n: usize)
        ensures
            n == self.step_count(),
    {
        self.gates.len()
    }

    /// Whether `step`'s gate is armed right now.  Inspection only.
    pub fn is_armed(&self, step: usize) -> (b: bool)
        requires
            step < self.step_count(),
        ensures
            b == (self.gates@[step as int] == 1usize),
    {
        self.gates[step] == 1
    }

    /// At most one permit is in flight: two distinct steps are never armed
    /// at the same time.
    pub proof fn lemma_one_gate_armed(&self, s1: int, s2: int)
        requires
            self.wf(),
            0 <= s1 < self.step_count(),
            0 <= s2 < self.step_count(),
            s1 != s2,
        ensures
            !(self.gates@[s1] > 0 && self.gates@[s2] > 0),
    {
    }

    /// The cycle A, B, C, D, E repeating.
    pub fn case_a() -> (s: FiniteStateSequencer)
        ensures
            s.wf(),
            s.step_count() == 5,
            s.pos == 0,
            s.flip,
            s.pattern@ =~= seq![
                Slot::Fixed(STEP_A),
                Slot::Fixed(STEP_B),
                Slot::Fixed(STEP_C),
                Slot::Fixed(STEP_D),
                Slot::Fixed(STEP_E),
            ],
    {
        let mut pattern: Vec<Slot> = Vec::new();
        pattern.push(Slot::Fixed(STEP_A));
        pattern.push(Slot::Fixed(STEP_B));
        pattern.push(Slot::Fixed(STEP_C));
        pattern.push(Slot::Fixed(STEP_D));
        pattern.push(Slot::Fixed(STEP_E));
        match FiniteStateSequencer::new(5, pattern) {
            Ok(s) => s,
            Err(_) => unreached(),
        }
    }

    /// The cycle A, C, B, D, E repeating.
    pub fn case_b() -> (s: FiniteStateSequencer)
        ensures
            s.wf(),
            s.step_count() == 5,
            s.pos == 0,
            s.flip,
            s.pattern@ =~= seq![
                Slot::Fixed(STEP_A),
                Slot::Fixed(STEP_C),
                Slot::Fixed(STEP_B),
                Slot::Fixed(STEP_D),
                Slot::Fixed(STEP_E),
            ],
    {
        let mut pattern: Vec<Slot> = Vec::new();
        pattern.push(Slot::Fixed(STEP_A));
        pattern.push(Slot::Fixed(STEP_C));
        pattern.push(Slot::Fixed(STEP_B));
        pattern.push(Slot::Fixed(STEP_D));
        pattern.push(Slot::Fixed(STEP_E));
        match FiniteStateSequencer::new(5, pattern) {
            Ok(s) => s,
            Err(_) => unreached(),
        }
    }

    /// The cycle (A or B), C, D, E repeating, alternating A with B.
    pub fn case_c() -> (s: FiniteStateSequencer)
        ensures
            s.wf(),
            s.step_count() == 5,
            s.pos == 0,
            s.flip,
            s.pattern@ =~= seq![
                Slot::Alternating(STEP_A, STEP_B),
                Slot::Fixed(STEP_C),
                Slot::Fixed(STEP_D),
                Slot::Fixed(STEP_E),
            ],
    {
        let mut pattern: Vec<Slot> = Vec::new();
        pattern.push(Slot::Alternating(STEP_A, STEP_B));
        pattern.push(Slot::Fixed(STEP_C));
        pattern.push(Slot::Fixed(STEP_D));
        pattern.push(Slot::Fixed(STEP_E));
        match FiniteStateSequencer::new(5, pattern) {
            Ok(s) => s,
            Err(_) => unreached(),
        }
    }

    /// The cycle (A or B), C, E, (A or B), (A or B), D, E repeating: three
    /// alternating slots per cycle, and the A/B choices strictly alternate
    /// A, B, A, B, ... across the whole run, so consecutive cycles read
    /// A, C, E, B, A, D, E then B, C, E, A, B, D, E.
    pub fn case_d() -> (s: FiniteStateSequencer)
        ensures
            s.wf(),
            s.step_count() == 5,
            s.pos == 0,
            s.flip,
            s.pattern@ =~= seq![
                Slot::Alternating(STEP_A, STEP_B),
                Slot::Fixed(STEP_C),
                Slot::Fixed(STEP_E),
                Slot::Alternating(STEP_A, STEP_B),
                Slot::Alternating(STEP_A, STEP_B),
                Slot::Fixed(STEP_D),
                Slot::Fixed(STEP_E),
            ],
    {
        let mut pattern: Vec<Slot> = Vec::new();
        pattern.push(Slot::Alternating(STEP_A, STEP_B));
        pattern.push(Slot::Fixed(STEP_C));
        pattern.push(Slot::Fixed(STEP_E));
        pattern.push(Slot::Alternating(STEP_A, STEP_B));
        pattern.push(Slot::Alternating(STEP_A, STEP_B));
        pattern.push(Slot::Fixed(STEP_D));
        pattern.push(Slot::Fixed(STEP_E));
        match FiniteStateSequencer::new(5, pattern) {
            Ok(s) => s,
            Err(_) => unreached(),
        }
    }
}

} // verus!
