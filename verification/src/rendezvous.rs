//! N-of-M rendezvous over distinguishable contribution kinds.
//!
//! Producers contribute items of distinguishable kinds (ingredients, parts);
//! a consumer proceeds only once one complete matching set is available.  A
//! requirement is a kind sequence in ascending order — the fixed,
//! deterministic acquisition order that rules out circular waits between
//! consumers — and may name a kind more than once to require several units
//! of it.  Consumption is atomic: either every required unit is taken in one
//! step, or nothing changes, so no partial consumption is ever observable.

use vstd::prelude::*;

use crate::errors::KernelError;

verus! {

/// Number of units of `kind` that the requirement sequence asks for.
pub open spec fn mult_of(req: Seq<usize>, kind: int) -> nat
    decreases req.len(),
{
    if req.len() == 0 {
        0
    } else {
        mult_of(req.drop_last(), kind) + if req.last() as int == kind {
            1nat
        } else {
            0nat
        }
    }
}

/// Every kind has at least as many unconsumed units as the requirement asks
/// for: one complete matching set is available.
pub open spec fn satisfies(counts: Seq<usize>, req: Seq<usize>) -> bool {
    forall|k: int| 0 <= k < counts.len() ==> mult_of(req, k) <= counts[k]
}

/// The counts left once one complete set for `req` has been taken.
pub open spec fn remaining_after(counts: Seq<usize>, req: Seq<usize>) -> Seq<usize> {
    Seq::new(counts.len(), |k: int| (counts[k] - mult_of(req, k)) as usize)
}

/// Appending one entry to a requirement raises exactly that kind's
/// multiplicity by one.
pub proof fn lemma_mult_of_push(req: Seq<usize>, x: usize, kind: int)
    ensures
        mult_of(req.push(x), kind) == mult_of(req, kind) + if x as int == kind {
            1nat
        } else {
            0nat
        },
{
    assert(req.push(x).drop_last() =~= req);
}

/// Multiplicities over a prefix grow one entry at a time.
pub proof fn lemma_mult_of_take_succ(req: Seq<usize>, j: int, kind: int)
    requires
        0 <= j < req.len(),
    ensures
        mult_of(req.take(j + 1), kind) == mult_of(req.take(j), kind) + if req[j] as int
            == kind {
            1nat
        } else {
            0nat
        },
{
    assert(req.take(j + 1).drop_last() =~= req.take(j));
    assert(req.take(j + 1).last() == req[j]);
}

/// A prefix never asks for more units of a kind than the whole requirement.
pub proof fn lemma_mult_of_take_le(req: Seq<usize>, j: int, kind: int)
    requires
        0 <= j <= req.len(),
    ensures
        mult_of(req.take(j), kind) <= mult_of(req, kind),
    decreases req.len() - j,
{
    if j == req.len() {
        assert(req.take(j) =~= req);
    } else {
        lemma_mult_of_take_succ(req, j, kind);
        lemma_mult_of_take_le(req, j + 1, kind);
    }
}

/// Rendezvous point: one unconsumed-unit count per contribution kind.
pub struct RendezvousGroup {
    /// Unconsumed contributions of each kind, indexed by kind.
    pub counts: Vec<usize>,
}

impl RendezvousGroup {
    /// A group always has at least one kind.
    pub open spec fn wf(&self) -> bool {
        self.counts@.len() > 0
    }

    /// Creates a group with the given number of contribution kinds, all
    /// starting empty; zero kinds is a configuration error.
    pub fn new(kinds: usize) -> (r: Result<RendezvousGroup, KernelError>)
        ensures
            r is Ok <==> kinds > 0,
            r matches Ok(g) ==> {
                &&& g.wf()
                &&& g.counts@.len() == kinds
                &&& forall|k: int| 0 <= k < kinds ==> g.counts@[k] == 0
            },
            r matches Err(e) ==> e == KernelError::ZeroCapacity,
    {
        if kinds == 0 {
            return Err(KernelError::ZeroCapacity);
        }
        let mut counts: Vec<usize> = Vec::new();
        let mut i: usize = 0;
        while i < kinds
            invariant
                i <= kinds,
                counts@.len() == i,
                forall|k: int| 0 <= k < i ==> counts@[k] == 0,
            decreases kinds - i,
        {
            counts.push(0);
            i = i + 1;
        }
        Ok(RendezvousGroup { counts })
    }

    /// Number of contribution kinds.
    pub fn kinds(&self) -> (n: usize)
        ensures
            n == self.counts@.len(),
    {
        self.counts.len()
    }

    /// A producer places one item of `kind`, waking whichever consumer this
    /// completes a set for.
    pub fn contribute(&mut self, kind: usize)
        requires
            old(self).wf(),
            kind < old(self).counts@.len(),
            old(self).counts@[kind as int] < usize::MAX,
        ensures
            final(self).wf(),
            final(self).counts@ == old(self).counts@.update(
                kind as int,
                (old(self).counts@[kind as int] + 1) as usize,
            ),
    {
        let c = self.counts[kind];
        self.counts.set(kind, c + 1);
    }

    /// Unconsumed units of `kind`.  Non-authoritative inspection.
    pub fn available(&self, kind: usize) -> (n: usize)
        requires
            kind < self.counts@.len(),
        ensures
            n == self.counts@[kind as int],
    {
        self.counts[kind]
    }

    /// Atomically takes one complete set for `required` — one unit per
    /// entry, entries in ascending kind order — or takes nothing at all.
    /// Succeeds exactly when every required kind has at least as many
    /// unconsumed units as the requirement asks for.
    pub fn try_consume_set(&mut self, required: &Vec<usize>) -> (ok: bool)
        requires
            old(self).wf(),
            forall|i: int| 0 <= i < required@.len() ==> required@[i] < old(self).counts@.len(),
            forall|i: int, j: int| 0 <= i < j < required@.len() ==> required@[i] <= required@[j],
        ensures
            final(self).wf(),
            ok == satisfies(old(self).counts@, required@),
            ok ==> final(self).counts@ == remaining_after(old(self).counts@, required@),
            !ok ==> *final(self) == *old(self),
    {
        let n = self.counts.len();
        let mut scratch: Vec<usize> = Vec::new();
        let mut i: usize = 0;
        while i < n
            invariant
                i <= n,
                n == self.counts@.len(),
                scratch@.len() == i,
                forall|k: int| 0 <= k < i ==> scratch@[k] == self.counts@[k],
                *self == *old(self),
            decreases n - i,
        {
            let c = self.counts[i];
            scratch.push(c);
            i = i + 1;
        }
        let mut ok = true;
        let mut j: usize = 0;
        while j < required.len()
            invariant_except_break
                ok,
                j <= required@.len(),
                n == self.counts@.len(),
                *self == *old(self),
                scratch@.len() == n,
                forall|p: int| 0 <= p < required@.len() ==> required@[p] < n,
                forall|k: int|
                    0 <= k < n ==> #[trigger] mult_of(required@.take(j as int), k)
                        <= self.counts@[k],
                forall|k: int|
                    0 <= k < n ==> scratch@[k] == self.counts@[k] - #[trigger] mult_of(
                        required@.take(j as int),
                        k,
                    ),
            ensures
                *self == *old(self),
                scratch@.len() == n,
                ok ==> j == required@.len(),
                ok ==> forall|k: int|
                    0 <= k < n ==> #[trigger] mult_of(required@.take(j as int), k)
                        <= self.counts@[k],
                ok ==> forall|k: int|
                    0 <= k < n ==> scratch@[k] == self.counts@[k] - #[trigger] mult_of(
                        required@.take(j as int),
                        k,
                    ),
                !ok ==> !satisfies(self.counts@, required@),
            decreases required@.len() - j,
        {
            let kind = required[j];
            if scratch[kind] == 0 {
                ok = false;
                proof {
                    lemma_mult_of_take_succ(required@, j as int, kind as int);
                    lemma_mult_of_take_le(required@, j as int + 1, kind as int);
                    assert(mult_of(required@, kind as int) > self.counts@[kind as int]);
                }
                break ;
            }
            let ghost scratch_before = scratch@;
            let c = scratch[kind];
            scratch.set(kind, c - 1);
            proof {
                assert(scratch@ == scratch_before.update(kind as int, (c - 1) as usize));
                assert(required@[j as int] == kind);
                assert forall|k: int| 0 <= k < n implies #[trigger] mult_of(
                    required@.take(j as int + 1),
                    k,
                ) <= self.counts@[k] by {
                    lemma_mult_of_take_succ(required@, j as int, k);
                }
                assert forall|k: int| 0 <= k < n implies scratch@[k] == self.counts@[k]
                    - #[trigger] mult_of(required@.take(j as int + 1), k) by {
                    lemma_mult_of_take_succ(required@, j as int, k);
                }
            }
            j = j + 1;
        }
        if ok {
            proof {
                assert(required@.take(required@.len() as int) =~= required@);
                assert(scratch@ =~= remaining_after(self.counts@, required@));
            }
            self.counts = scratch;
            true
        } else {
            false
        }
    }
}

/// The counts that hold after contributing one unit of every kind except
/// `c`: the complement set an agent places so that exactly the consumer
/// holding `c` can proceed.
pub open spec fn one_each_except(kinds: nat, c: int) -> Seq<usize> {
    Seq::new(kinds, |k: int| if k == c {
        0usize
    } else {
        1usize
    })
}

/// Builds the complement requirement of `have`: every kind below `kinds`
/// except `have`, once each, in ascending order.
pub fn complement(kinds: usize, have: usize) -> (req: Vec<usize>)
    requires
        have < kinds,
    ensures
        req@.len() == kinds - 1,
        forall|i: int| 0 <= i < req@.len() ==> req@[i] < kinds,
        forall|i: int, j: int| 0 <= i < j < req@.len() ==> req@[i] < req@[j],
        forall|k: int|
            mult_of(req@, k) == if 0 <= k < kinds && k != have {
                1nat
            } else {
                0nat
            },
{
    let mut req: Vec<usize> = Vec::new();
    let mut k: usize = 0;
    while k < kinds
        invariant
            k <= kinds,
            have < kinds,
            req@.len() == if k <= have {
                k as int
            } else {
                k - 1
            },
            forall|i: int| 0 <= i < req@.len() ==> req@[i] < k,
            forall|i: int, j: int| 0 <= i < j < req@.len() ==> req@[i] < req@[j],
            forall|q: int|
                mult_of(req@, q) == if 0 <= q < k && q != have {
                    1nat
                } else {
                    0nat
                },
        decreases kinds - k,
    {
        if k != have {
            let ghost before = req@;
            req.push(k);
            proof {
                assert forall|q: int|
                    mult_of(req@, q) == if 0 <= q < k + 1 && q != have {
                        1nat
                    } else {
                        0nat
                    } by {
                    lemma_mult_of_push(before, k, q);
                }
            }
        }
        k = k + 1;
    }
    req
}

/// Two consumers whose requirements share no kind do not block each other:
/// if both sets are available, taking one leaves the other still available.
pub proof fn lemma_disjoint_consumers(counts: Seq<usize>, req1: Seq<usize>, req2: Seq<usize>)
    requires
        satisfies(counts, req1),
        satisfies(counts, req2),
        forall|k: int| !(#[trigger] mult_of(req1, k) > 0 && mult_of(req2, k) > 0),
    ensures
        satisfies(remaining_after(counts, req1), req2),
{
    assert forall|k: int| 0 <= k < remaining_after(counts, req1).len() implies mult_of(req2, k)
        <= remaining_after(counts, req1)[k] by {
        if mult_of(req2, k) > 0 {
            assert(mult_of(req1, k) == 0);
        }
    }
}

/// An agent that places the complement of kind `c` into an empty group
/// unblocks exactly the consumer whose requirement is the complement of
/// `c`: a consumer holding `s` finds its set available iff `s == c`.
pub proof fn lemma_complement_unblocks_exactly_one(kinds: nat, c: int, s: int, req: Seq<usize>)
    requires
        2 <= kinds,
        0 <= c < kinds,
        0 <= s < kinds,
        forall|k: int|
            mult_of(req, k) == if 0 <= k < kinds && k != s {
                1nat
            } else {
                0nat
            },
    ensures
        satisfies(one_each_except(kinds, c), req) <==> s == c,
{
    if s == c {
        assert forall|k: int| 0 <= k < kinds implies mult_of(req, k) <= one_each_except(kinds, c)[k] by {
        }
    } else {
        assert(mult_of(req, c) == 1);
        assert(one_each_except(kinds, c)[c] == 0);
    }
}

} // verus!
