//! Cyclic resource ring: the dining-philosopher protocol.
//!
//! `K` actors sit in a ring over `K` exclusive resources; actor `i` needs
//! resources `i` and `i + 1 mod K` to eat.  Each resource is an exclusive
//! lock, written out here as its owner slot.  The deadlock-avoidance rule
//! is acquisition in resource-index order: an actor always takes the
//! lower-indexed of its two resources first, which breaks the circular
//! wait that a naive left-then-right policy produces.  Actors cycle
//! through thinking, hungry, and eating; leaving the eating phase returns
//! both resources before the actor may go hungry again.
//!
//! Two laws are proved here, over every run of the protocol: no two actors
//! ever hold the same resource, and whenever some actor is hungry, some
//! actor can make a step — the ring cannot deadlock.

use vstd::prelude::*;

use crate::errors::KernelError;

verus! {

/// The phases an actor cycles through.
#[derive(Clone, Copy, Debug, PartialEq, Eq, Structural)]
pub enum Estado {
    /// The actor is thinking and holds no resource.
    Pensando,
    /// The actor is hungry: it wants both adjacent resources and may already
    /// hold the lower-indexed one.
    TieneHambre,
    /// The actor is eating and holds both adjacent resources.
    Comiendo,
}

/// One ring transition, for stating laws over whole histories.
pub enum RingOp {
    /// The given thinking actor gets hungry.
    BecomeHungry(usize),
    /// The given hungry actor tries to take its lower resource.
    TakeLower(usize),
    /// The given hungry actor, holding its lower resource, tries to take
    /// the upper one and eat.
    TakeUpper(usize),
    /// The given eating actor returns both resources.
    FinishEating(usize),
}

/// The lower-indexed of actor `i`'s two resources (`i` and `i + 1 mod k`).
pub open spec fn lo(i: int, k: int) -> int {
    if i < k - 1 {
        i
    } else {
        0
    }
}

/// The higher-indexed of actor `i`'s two resources.
pub open spec fn hi(i: int, k: int) -> int {
    if i < k - 1 {
        i + 1
    } else {
        k - 1
    }
}

/// Ring of actors borrowing adjacent exclusive resources.
pub struct CyclicResourceRing {
    /// Phase of each actor.
    pub states: Vec<Estado>,
    /// Whether each hungry actor already holds its lower resource.
    pub holds_lower: Vec<bool>,
    /// Current exclusive owner of each resource, if any.
    pub res_owner: Vec<Option<usize>>,
}

impl CyclicResourceRing {
    /// Number of actors (and of resources).
    pub open spec fn k(&self) -> int {
        self.states@.len() as int
    }

    /// Actor `i` currently holds resource `f`: an eating actor holds both
    /// of its resources, a hungry actor holds at most its lower one.
    pub open spec fn holds(&self, i: int, f: int) -> bool {
        ||| (self.states@[i] is Comiendo && (f == lo(i, self.k()) || f == hi(i, self.k())))
        ||| (self.states@[i] is TieneHambre && self.holds_lower@[i] && f == lo(i, self.k()))
    }

    /// Ring invariant: the ownership map and the actor phases agree — a
    /// resource's owner is exactly the actor whose phase says it holds it.
    pub open spec fn wf(&self) -> bool {
        &&& self.k() >= 2
        &&& self.holds_lower@.len() == self.k()
        &&& self.res_owner@.len() == self.k()
        &&& forall|i: int|
            0 <= i < self.k() && #[trigger] self.holds_lower@[i] ==> self.states@[i] is TieneHambre
        &&& forall|f: int|
            0 <= f < self.k() ==> (#[trigger] self.res_owner@[f] matches Some(i) ==> 0 <= i
                < self.k() && self.holds(i as int, f))
        &&& forall|i: int, f: int|
            0 <= i < self.k() && 0 <= f < self.k() && #[trigger] self.holds(i, f)
                ==> (self.res_owner@[f] matches Some(o) && o == i)
    }

    /// An actor can make a step right now: an eating actor can always stop,
    /// and a hungry actor can take its next resource if it is free.
    pub open spec fn can_step(&self, i: int) -> bool {
        ||| self.states@[i] is Comiendo
        ||| (self.states@[i] is TieneHambre && !self.holds_lower@[i] && self.res_owner@[lo(
            i,
            self.k(),
        )] is None)
        ||| (self.states@[i] is TieneHambre && self.holds_lower@[i] && self.res_owner@[hi(
            i,
            self.k(),
        )] is None)
    }

    /// Creates a ring of `k` thinking actors over `k` free resources; fewer
    /// than two actors cannot form a cycle and is a configuration error.
    pub fn new(k: usize) -> (r: Result<CyclicResourceRing, KernelError>)
        ensures
            r is Ok <==> k >= 2,
            r matches Ok(ring) ==> {
                &&& ring.wf()
                &&& ring.k() == k
                &&& forall|i: int| 0 <= i < k ==> ring.states@[i] is Pensando
                &&& forall|f: int| 0 <= f < k ==> ring.res_owner@[f] is None
            },
            r matches Err(e) ==> e == KernelError::TooFewActors,
    {
        if k < 2 {
            return Err(KernelError::TooFewActors);
        }
        let mut states: Vec<Estado> = Vec::new();
        let mut holds_lower: Vec<bool> = Vec::new();
        let mut res_owner: Vec<Option<usize>> = Vec::new();
        let mut i: usize = 0;
        while i < k
            invariant
                i <= k,
                states@.len() == i,
                holds_lower@.len() == i,
                res_owner@.len() == i,
                forall|j: int| 0 <= j < i ==> states@[j] is Pensando,
                forall|j: int| 0 <= j < i ==> !holds_lower@[j],
                forall|j: int| 0 <= j < i ==> res_owner@[j] is None,
            decreases k - i,
        {
            states.push(Estado::Pensando);
            holds_lower.push(false);
            res_owner.push(None);
            i = i + 1;
        }
        let ring = CyclicResourceRing { states, holds_lower, res_owner };
        Ok(ring)
    }

    /// Number of actors.  Inspection only.
    pub fn actor_count(&self) -> (n: usize)
        ensures
            n == self.k(),
    {
        self.states.len()
    }

    /// Phase of actor `i`.  Inspection only.
    pub fn actor_state(&self, i: usize) -> (s: Estado)
        requires
            i < self.k(),
        ensures
            s == self.states@[i as int],
    {
        self.states[i]
    }

    /// Whether resource `f` is currently unowned.  Inspection only.
    pub fn is_resource_free(&self, f: usize) -> (b: bool)
        requires
            self.wf(),
            f < self.k(),
        ensures
            b == (self.res_owner@[f as int] is None),
    {
        self.res_owner[f].is_none()
    }

    /// The lower-indexed resource of actor `i`.
    fn lower_res(&self, i: usize) -> (f: usize)
        requires
            self.k() >= 2,
            i < self.k(),
        ensures
            f == lo(i as int, self.k()),
    {
        if i < self.states.len() - 1 {
            i
        } else {
            0
        }
    }

    /// The higher-indexed resource of actor `i`.
    fn upper_res(&self, i: usize) -> (f: usize)
        requires
            self.k() >= 2,
            i < self.k(),
        ensures
            f == hi(i as int, self.k()),
    {
        if i < self.states.len() - 1 {
            i + 1
        } else {
            self.states.len() - 1
        }
    }

    /// A thinking actor gets hungry.  It still holds nothing.
    pub fn become_hungry(&mut self, i: usize)
        requires
            old(self).wf(),
            i < old(self).k(),
            old(self).states@[i as int] is Pensando,
        ensures
            final(self).wf(),
            final(self).states@ == old(self).states@.update(i as int, Estado::TieneHambre),
            final(self).holds_lower@ == old(self).holds_lower@,
            final(self).res_owner@ == old(self).res_owner@,
            ring_step(*old(self), RingOp::BecomeHungry(i), *final(self)),
    {
        self.states.set(i, Estado::TieneHambre);
        proof {
            lemma_ring_step_preserves_wf(*old(self), RingOp::BecomeHungry(i), *self);
        }
    }

    /// A hungry actor that holds nothing tries to take its lower resource —
    /// always the lower one first; that is the deadlock-avoidance rule.
    /// Succeeds iff that resource is free right now.
    pub fn try_take_lower(&mut self, i: usize) -> (taken: bool)
        requires
            old(self).wf(),
            i < old(self).k(),
            old(self).states@[i as int] is TieneHambre,
            !old(self).holds_lower@[i as int],
        ensures
            final(self).wf(),
            taken == (old(self).res_owner@[lo(i as int, old(self).k())] is None),
            taken ==> {
                &&& final(self).states@ == old(self).states@
                &&& final(self).holds_lower@ == old(self).holds_lower@.update(i as int, true)
                &&& final(self).res_owner@ == old(self).res_owner@.update(
                    lo(i as int, old(self).k()),
                    Some(i),
                )
            },
            !taken ==> *final(self) == *old(self),
            ring_step(*old(self), RingOp::TakeLower(i), *final(self)),
    {
        let f = self.lower_res(i);
        if self.res_owner[f].is_some() {
            return false;
        }
        self.holds_lower.set(i, true);
        self.res_owner.set(f, Some(i));
        proof {
            lemma_ring_step_preserves_wf(*old(self), RingOp::TakeLower(i), *self);
        }
        true
    }

    /// A hungry actor that holds its lower resource tries to take the upper
    /// one and start eating.  Succeeds iff that resource is free right now.
    pub fn try_take_upper(&mut self, i: usize) -> (taken: bool)
        requires
            old(self).wf(),
            i < old(self).k(),
            old(self).states@[i as int] is TieneHambre,
            old(self).holds_lower@[i as int],
        ensures
            final(self).wf(),
            taken == (old(self).res_owner@[hi(i as int, old(self).k())] is None),
            taken ==> {
                &&& final(self).states@ == old(self).states@.update(i as int, Estado::Comiendo)
                &&& final(self).holds_lower@ == old(self).holds_lower@.update(i as int, false)
                &&& final(self).res_owner@ == old(self).res_owner@.update(
                    hi(i as int, old(self).k()),
                    Some(i),
                )
            },
            !taken ==> *final(self) == *old(self),
            ring_step(*old(self), RingOp::TakeUpper(i), *final(self)),
    {
        let f = self.upper_res(i);
        if self.res_owner[f].is_some() {
            return false;
        }
        self.states.set(i, Estado::Comiendo);
        self.holds_lower.set(i, false);
        self.res_owner.set(f, Some(i));
        proof {
            lemma_ring_step_preserves_wf(*old(self), RingOp::TakeUpper(i), *self);
        }
        true
    }

    /// An eating actor stops eating and returns both resources, then goes
    /// back to thinking.  Both resources are free again afterwards.
    pub fn finish_eating(&mut self, i: usize)
        requires
            old(self).wf(),
            i < old(self).k(),
            old(self).states@[i as int] is Comiendo,
        ensures
            final(self).wf(),
            final(self).states@ == old(self).states@.update(i as int, Estado::Pensando),
            final(self).holds_lower@ == old(self).holds_lower@,
            final(self).res_owner@ == old(self).res_owner@.update(
                lo(i as int, old(self).k()),
                None,
            ).update(hi(i as int, old(self).k()), None),
            ring_step(*old(self), RingOp::FinishEating(i), *final(self)),
    {
        let flo = self.lower_res(i);
        let fhi = self.upper_res(i);
        self.states.set(i, Estado::Pensando);
        self.res_owner.set(flo, None);
        self.res_owner.set(fhi, None);
        proof {
            lemma_ring_step_preserves_wf(*old(self), RingOp::FinishEating(i), *self);
        }
    }

    /// Exclusive ownership law: two actors holding the same resource index
    /// are the same actor.
    pub proof fn lemma_no_two_hold_same_resource(&self, i: int, j: int, f: int)
        requires
            self.wf(),
            0 <= i < self.k(),
            0 <= j < self.k(),
            0 <= f < self.k(),
            self.holds(i, f),
            self.holds(j, f),
        ensures
            i == j,
    {
    }

    /// In a state where nobody is eating, a hungry actor holding its lower
    /// resource leads to some actor that can step: follow the chain of
    /// holders upward through strictly increasing lower-resource indices —
    /// it must end at an actor whose upper resource is free.
    proof fn lemma_holder_chain(&self, a: int)
        requires
            self.wf(),
            forall|j: int| 0 <= j < self.k() ==> !(#[trigger] self.states@[j] is Comiendo),
            0 <= a < self.k(),
            self.states@[a] is TieneHambre,
            self.holds_lower@[a],
        ensures
            exists|j: int| 0 <= j < self.k() && self.can_step(j),
        decreases self.k() - lo(a, self.k()),
    {
        let k = self.k();
        let h = hi(a, k);
        assert(lo(a, k) < h);
        if self.res_owner@[h] is None {
            assert(self.can_step(a));
        } else {
            match self.res_owner@[h] {
                Some(bu) => {
                    let b = bu as int;
                    assert(self.holds(b, h));
                    assert(self.states@[b] is TieneHambre && self.holds_lower@[b]);
                    assert(h == lo(b, k));
                    self.lemma_holder_chain(b);
                },
                None => {},
            }
        }
    }

    /// Deadlock-freedom law: whenever some actor is hungry, some actor can
    /// make a step — no reachable state blocks every actor while resources
    /// sit idle.  The index-order acquisition rule makes the chain of
    /// holders acyclic, which is exactly what this proof walks.
    pub proof fn lemma_progress(&self)
        requires
            self.wf(),
            exists|i: int| 0 <= i < self.k() && self.states@[i] is TieneHambre,
        ensures
            exists|j: int| 0 <= j < self.k() && self.can_step(j),
    {
        let k = self.k();
        if exists|j: int| 0 <= j < k && self.states@[j] is Comiendo {
            let j = choose|j: int| 0 <= j < k && self.states@[j] is Comiendo;
            assert(self.can_step(j));
        } else {
            assert(forall|j: int| 0 <= j < k ==> !(#[trigger] self.states@[j] is Comiendo));
            let i = choose|i: int| 0 <= i < k && self.states@[i] is TieneHambre;
            if self.holds_lower@[i] {
                self.lemma_holder_chain(i);
            } else if self.res_owner@[lo(i, k)] is None {
                assert(self.can_step(i));
            } else {
                match self.res_owner@[lo(i, k)] {
                    Some(bu) => {
                        let b = bu as int;
                        assert(self.holds(b, lo(i, k)));
                        assert(self.states@[b] is TieneHambre && self.holds_lower@[b]);
                        self.lemma_holder_chain(b);
                    },
                    None => {},
                }
            }
        }
    }
}

/// How one transition transforms the ring: exactly the relation the four
/// operations ensure between their pre- and post-states, refused
/// acquisitions included.  A transition is only related to states where
/// its actor is in the right phase.
pub open spec fn ring_step(pre: CyclicResourceRing, op: RingOp, post: CyclicResourceRing) -> bool {
    let k = pre.k();
    match op {
        RingOp::BecomeHungry(i) => {
            &&& i < k
            &&& pre.states@[i as int] is Pensando
            &&& post.states@ == pre.states@.update(i as int, Estado::TieneHambre)
            &&& post.holds_lower@ == pre.holds_lower@
            &&& post.res_owner@ == pre.res_owner@
        },
        RingOp::TakeLower(i) => {
            &&& i < k
            &&& pre.states@[i as int] is TieneHambre
            &&& !pre.holds_lower@[i as int]
            &&& if pre.res_owner@[lo(i as int, k)] is None {
                &&& post.states@ == pre.states@
                &&& post.holds_lower@ == pre.holds_lower@.update(i as int, true)
                &&& post.res_owner@ == pre.res_owner@.update(lo(i as int, k), Some(i))
            } else {
                post == pre
            }
        },
        RingOp::TakeUpper(i) => {
            &&& i < k
            &&& pre.states@[i as int] is TieneHambre
            &&& pre.holds_lower@[i as int]
            &&& if pre.res_owner@[hi(i as int, k)] is None {
                &&& post.states@ == pre.states@.update(i as int, Estado::Comiendo)
                &&& post.holds_lower@ == pre.holds_lower@.update(i as int, false)
                &&& post.res_owner@ == pre.res_owner@.update(hi(i as int, k), Some(i))
            } else {
                post == pre
            }
        },
        RingOp::FinishEating(i) => {
            &&& i < k
            &&& pre.states@[i as int] is Comiendo
            &&& post.states@ == pre.states@.update(i as int, Estado::Pensando)
            &&& post.holds_lower@ == pre.holds_lower@
            &&& post.res_owner@ == pre.res_owner@.update(lo(i as int, k), None).update(
                hi(i as int, k),
                None,
            )
        },
    }
}

/// One transition keeps the ring invariant intact.
pub proof fn lemma_ring_step_preserves_wf(
    pre: CyclicResourceRing,
    op: RingOp,
    post: CyclicResourceRing,
)
    requires
        pre.wf(),
        ring_step(pre, op, post),
    ensures
        post.wf(),
{
    let k = pre.k();
    match op {
        RingOp::BecomeHungry(i) => {
            assert forall|a: int, g: int| 0 <= a < k implies #[trigger] post.holds(a, g)
                == pre.holds(a, g) by {}
            assert forall|g: int|
                0 <= g < k implies (#[trigger] post.res_owner@[g] matches Some(j) ==> 0 <= j < k
                    && post.holds(j as int, g)) by {
                match post.res_owner@[g] {
                    Some(j) => {
                        assert(pre.holds(j as int, g));
                    },
                    None => {},
                }
            }
        },
        RingOp::TakeLower(i) => {
            if pre.res_owner@[lo(i as int, k)] is None {
                assert forall|a: int, g: int|
                    0 <= a < k && a != i implies #[trigger] post.holds(a, g) == pre.holds(
                    a,
                    g,
                ) by {}
                assert forall|a: int, g: int|
                    0 <= a < k && 0 <= g < k && #[trigger] post.holds(a, g) implies (
                post.res_owner@[g] matches Some(o) && o == a) by {
                    if a == i as int {
                        assert(g == lo(i as int, k));
                    } else {
                        assert(pre.holds(a, g));
                        assert(g != lo(i as int, k));
                    }
                }
                assert forall|g: int|
                    0 <= g < k implies (#[trigger] post.res_owner@[g] matches Some(j) ==> 0 <= j
                        < k && post.holds(j as int, g)) by {
                    match post.res_owner@[g] {
                        Some(j) => {
                            if g == lo(i as int, k) {
                                assert(j == i);
                                assert(post.holds(i as int, g));
                            } else {
                                assert(pre.holds(j as int, g));
                            }
                        },
                        None => {},
                    }
                }
            }
        },
        RingOp::TakeUpper(i) => {
            if pre.res_owner@[hi(i as int, k)] is None {
                // the lower resource stays owned by `i` throughout
                assert(pre.holds(i as int, lo(i as int, k)));
                assert(pre.res_owner@[lo(i as int, k)] == Some(i));
                assert(lo(i as int, k) != hi(i as int, k));
                assert forall|a: int, g: int|
                    0 <= a < k && a != i implies #[trigger] post.holds(a, g) == pre.holds(
                    a,
                    g,
                ) by {}
                assert forall|a: int, g: int|
                    0 <= a < k && 0 <= g < k && #[trigger] post.holds(a, g) implies (
                post.res_owner@[g] matches Some(o) && o == a) by {
                    if a == i as int {
                        assert(g == lo(i as int, k) || g == hi(i as int, k));
                    } else {
                        assert(pre.holds(a, g));
                        assert(g != hi(i as int, k));
                    }
                }
                assert forall|g: int|
                    0 <= g < k implies (#[trigger] post.res_owner@[g] matches Some(j) ==> 0 <= j
                        < k && post.holds(j as int, g)) by {
                    match post.res_owner@[g] {
                        Some(j) => {
                            if g == hi(i as int, k) {
                                assert(j == i);
                                assert(post.holds(i as int, g));
                            } else {
                                assert(pre.holds(j as int, g));
                                if j == i {
                                    assert(g == lo(i as int, k));
                                    assert(post.holds(i as int, g));
                                }
                            }
                        },
                        None => {},
                    }
                }
            }
        },
        RingOp::FinishEating(i) => {
            assert forall|a: int, g: int|
                0 <= a < k && a != i implies #[trigger] post.holds(a, g) == pre.holds(a, g) by {}
            assert forall|a: int, g: int|
                0 <= a < k && 0 <= g < k && #[trigger] post.holds(a, g) implies (
            post.res_owner@[g] matches Some(o) && o == a) by {
                assert(a != i as int);
                assert(pre.holds(a, g));
                assert(g != lo(i as int, k) && g != hi(i as int, k)) by {
                    if g == lo(i as int, k) || g == hi(i as int, k) {
                        assert(pre.holds(i as int, g));
                    }
                }
            }
            assert forall|g: int|
                0 <= g < k implies (#[trigger] post.res_owner@[g] matches Some(j) ==> 0 <= j < k
                    && post.holds(j as int, g)) by {
                match post.res_owner@[g] {
                    Some(j) => {
                        assert(g != lo(i as int, k) && g != hi(i as int, k));
                        assert(pre.holds(j as int, g));
                        assert(j != i) by {
                            if j == i {
                                assert(g == lo(i as int, k) || g == hi(i as int, k));
                            }
                        }
                    },
                    None => {},
                }
            }
        },
    }
}

/// `states` records a whole history: each consecutive pair of states is
/// related by the corresponding transition.
pub open spec fn ring_run(states: Seq<CyclicResourceRing>, ops: Seq<RingOp>) -> bool {
    &&& states.len() == ops.len() + 1
    &&& forall|i: int| 0 <= i < ops.len() ==> ring_step(#[trigger] states[i], ops[i], states[i + 1])
}

/// Ring laws over whole histories: start any interleaving of actor
/// transitions from a well-formed ring, and after every prefix no two
/// actors hold the same resource, and some actor can step whenever some
/// actor is hungry — the ring never deadlocks, for any number of cycles.
pub proof fn lemma_ring_laws_every_prefix(
    states: Seq<CyclicResourceRing>,
    ops: Seq<RingOp>,
    n: int,
)
    requires
        ring_run(states, ops),
        states[0].wf(),
        0 <= n < states.len(),
    ensures
        states[n].wf(),
        forall|a: int, b: int, f: int|
            0 <= a < states[n].k() && 0 <= b < states[n].k() && 0 <= f < states[n].k()
                && #[trigger] states[n].holds(a, f) && #[trigger] states[n].holds(b, f) ==> a == b,
        (exists|i: int| 0 <= i < states[n].k() && states[n].states@[i] is TieneHambre) ==> exists|
            j: int,
        |
            0 <= j < states[n].k() && states[n].can_step(j),
    decreases n,
{
    if n > 0 {
        lemma_ring_laws_every_prefix(states, ops, n - 1);
        lemma_ring_step_preserves_wf(states[n - 1], ops[n - 1], states[n]);
    }
    if exists|i: int| 0 <= i < states[n].k() && states[n].states@[i] is TieneHambre {
        states[n].lemma_progress();
    }
}

} // verus!
