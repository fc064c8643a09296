//! Fixed-capacity FIFO buffer coordinated by a pair of semaphores.
//!
//! The buffer composes the flow-control protocol of the producer/consumer
//! exercises: an `empty_slots` semaphore counts room left, a `full_slots`
//! semaphore counts items present, and well-formedness ties the two to the
//! queue itself — the counts always sum to the capacity and `full_slots`
//! always equals the queue length.  A producer that finds the buffer full,
//! or a consumer that finds it empty, is told so and retries or parks in its
//! driver; the buffer never lies about room.
//!
//! Ghost journals of everything produced and consumed make the FIFO law a
//! single invariant: the consumed journal plus the live queue always equals
//! the produced journal, so items leave in exactly the order they entered.

use vstd::prelude::*;

use crate::errors::KernelError;
use crate::semaphore::CountingSemaphore;

verus! {

/// One buffer operation, for stating laws over whole histories.
pub enum BufOp {
    /// An attempt to append the given item.
    Produce(u64),
    /// An attempt to remove the oldest item.
    Consume,
}

/// Bounded FIFO queue for producer/consumer flow control.
pub struct BoundedBuffer {
    /// Items currently buffered, oldest first.
    pub queue: Vec<u64>,
    /// Fixed capacity chosen at construction.
    pub capacity: usize,
    /// Counts free slots; a producer takes one unit per item added.
    pub empty_slots: CountingSemaphore,
    /// Counts buffered items; a consumer takes one unit per item removed.
    pub full_slots: CountingSemaphore,
    /// Journal of every item ever produced, in order.
    pub produced: Ghost<Seq<u64>>,
    /// Journal of every item ever consumed, in order.
    pub consumed: Ghost<Seq<u64>>,
}

impl BoundedBuffer {
    /// Buffer invariant: the queue fits the capacity, the paired semaphore
    /// counts mirror it exactly, and the journals account for every item.
    pub open spec fn wf(&self) -> bool {
        &&& self.capacity > 0
        &&& self.queue@.len() <= self.capacity
        &&& self.empty_slots.wf()
        &&& self.full_slots.wf()
        &&& self.empty_slots.max == self.capacity
        &&& self.full_slots.max == self.capacity
        &&& self.empty_slots.waiters@.len() == 0
        &&& self.full_slots.waiters@.len() == 0
        &&& self.empty_slots.count + self.full_slots.count == self.capacity
        &&& self.full_slots.count == self.queue@.len()
        &&& self.consumed@ + self.queue@ == self.produced@
    }

    /// The journal part of the invariant: the queue fits the capacity and
    /// the journals account for every item that ever passed through.
    pub open spec fn journals_ok(&self) -> bool {
        &&& self.capacity > 0
        &&& self.queue@.len() <= self.capacity
        &&& self.consumed@ + self.queue@ == self.produced@
    }

    /// Creates an empty buffer of the given capacity; a zero capacity is a
    /// configuration error.
    pub fn new(capacity: usize) -> (r: Result<BoundedBuffer, KernelError>)
        ensures
            r is Ok <==> capacity > 0,
            r matches Ok(b) ==> {
                &&& b.wf()
                &&& b.capacity == capacity
                &&& b.queue@.len() == 0
                &&& b.produced@ == Seq::<u64>::empty()
                &&& b.consumed@ == Seq::<u64>::empty()
            },
            r matches Err(e) ==> e == KernelError::ZeroCapacity,
    {
        if capacity == 0 {
            return Err(KernelError::ZeroCapacity);
        }
        let empty_slots = match CountingSemaphore::new(capacity, capacity) {
            Ok(s) => s,
            Err(_) => {
                return unreached();
            },
        };
        let full_slots = match CountingSemaphore::new(0, capacity) {
            Ok(s) => s,
            Err(_) => {
                return unreached();
            },
        };
        let b = BoundedBuffer {
            queue: Vec::new(),
            capacity,
            empty_slots,
            full_slots,
            produced: Ghost(Seq::empty()),
            consumed: Ghost(Seq::empty()),
        };
        proof {
            assert(b.consumed@ + b.queue@ =~= b.produced@);
        }
        Ok(b)
    }

    /// Appends `item` if there is room: takes one `empty_slots` unit, queues
    /// the item, and releases one `full_slots` unit.  Reports `false` on a
    /// full buffer so the producer's driver can park until room opens up.
    pub fn try_produce(&mut self, item: u64) -> (accepted: bool)
        requires
            old(self).wf(),
        ensures
            final(self).wf(),
            final(self).capacity == old(self).capacity,
            accepted == (old(self).queue@.len() < old(self).capacity),
            accepted ==> {
                &&& final(self).queue@ == old(self).queue@.push(item)
                &&& final(self).produced@ == old(self).produced@.push(item)
                &&& final(self).consumed@ == old(self).consumed@
            },
            !accepted ==> *final(self) == *old(self),
            buffer_step(*old(self), BufOp::Produce(item), *final(self)),
    {
        if self.queue.len() == self.capacity {
            return false;
        }
        let _slot = self.empty_slots.try_acquire();
        self.queue.push(item);
        match self.full_slots.release(1) {
            Ok(_) => {},
            Err(_) => {
                return unreached();
            },
        }
        self.produced = Ghost(self.produced@.push(item));
        proof {
            assert(self.consumed@ + self.queue@ =~= self.produced@);
        }
        true
    }

    /// Removes and returns the oldest item if one is present: takes one
    /// `full_slots` unit, dequeues, and releases one `empty_slots` unit.
    /// Returns `None` on an empty buffer so the consumer's driver can park
    /// until an item arrives.
    pub fn try_consume(&mut self) -> (item: Option<u64>)
        requires
            old(self).wf(),
        ensures
            final(self).wf(),
            final(self).capacity == old(self).capacity,
            old(self).queue@.len() == 0 ==> item is None && *final(self) == *old(self),
            old(self).queue@.len() > 0 ==> {
                &&& item == Some(old(self).queue@[0])
                &&& final(self).queue@ == old(self).queue@.skip(1)
                &&& final(self).consumed@ == old(self).consumed@.push(old(self).queue@[0])
                &&& final(self).produced@ == old(self).produced@
            },
            buffer_step(*old(self), BufOp::Consume, *final(self)),
    {
        if self.queue.len() == 0 {
            return None;
        }
        let _slot = self.full_slots.try_acquire();
        let item = self.queue.remove(0);
        match self.empty_slots.release(1) {
            Ok(_) => {},
            Err(_) => {
                return unreached();
            },
        }
        self.consumed = Ghost(self.consumed@.push(item));
        proof {
            assert(self.queue@ =~= old(self).queue@.skip(1));
            assert(self.consumed@ + self.queue@ =~= self.produced@);
        }
        Some(item)
    }

    /// Removes and returns everything at once, oldest first — the
    /// jar-style consumer that wakes on a full buffer and empties it in
    /// one sitting.  Afterwards the buffer is empty, every slot is free
    /// again, and every removed item is journaled as consumed, in order.
    pub fn drain(&mut self) -> (items: Vec<u64>)
        requires
            old(self).wf(),
        ensures
            final(self).wf(),
            final(self).capacity == old(self).capacity,
            items@ == old(self).queue@,
            final(self).queue@.len() == 0,
            final(self).consumed@ == old(self).consumed@ + old(self).queue@,
            final(self).produced@ == old(self).produced@,
    {
        let mut items: Vec<u64> = Vec::new();
        while self.queue.len() > 0
            invariant
                self.wf(),
                self.capacity == old(self).capacity,
                self.produced@ == old(self).produced@,
                items@.len() + self.queue@.len() == old(self).queue@.len(),
                items@ == old(self).queue@.take(items@.len() as int),
                self.queue@ == old(self).queue@.skip(items@.len() as int),
                self.consumed@ == old(self).consumed@ + items@,
            decreases self.queue@.len(),
        {
            let ghost m = items@.len() as int;
            let item = match self.try_consume() {
                Some(v) => v,
                None => unreached(),
            };
            items.push(item);
            proof {
                assert(old(self).queue@.skip(m)[0] == old(self).queue@[m]);
                assert(item == old(self).queue@[m]);
                assert(items@ =~= old(self).queue@.take(m + 1));
                assert(self.queue@ =~= old(self).queue@.skip(m + 1));
                assert(self.consumed@ =~= old(self).consumed@ + items@);
            }
        }
        proof {
            assert(items@ =~= old(self).queue@);
        }
        items
    }

    /// Current number of buffered items.  Non-authoritative inspection: a
    /// concurrent driver must never use it for a control decision.
    pub fn len(&self) -> (n: usize)
        ensures
            n == self.queue@.len(),
    {
        self.queue.len()
    }

    /// Whether the buffer is at capacity.  Inspection only.
    pub fn is_full(&self) -> (b: bool)
        ensures
            b == (self.queue@.len() == self.capacity),
    {
        self.queue.len() == self.capacity
    }

    /// Whether the buffer holds no items.  Inspection only.
    pub fn is_empty(&self) -> (b: bool)
        ensures
            b == (self.queue@.len() == 0),
    {
        self.queue.len() == 0
    }

    /// The fixed capacity chosen at construction.
    pub fn capacity(&self) -> (n: usize)
        ensures
            n == self.capacity,
    {
        self.capacity
    }

    /// FIFO law: on a well-formed buffer the consumed journal is a prefix of
    /// the produced journal — items are dequeued in exactly the order they
    /// were enqueued — and the live queue never exceeds the capacity.
    pub proof fn lemma_fifo_order(&self)
        requires
            self.wf(),
        ensures
            self.consumed@.is_prefix_of(self.produced@),
            self.queue@.len() <= self.capacity,
            self.produced@.len() == self.consumed@.len() + self.queue@.len(),
    {
        assert(self.consumed@ =~= self.produced@.subrange(0, self.consumed@.len() as int));
    }
}

/// How one operation transforms the queue and the journals: exactly the
/// relation that `try_produce` and `try_consume` ensure between their pre-
/// and post-states, refused operations included.
pub open spec fn buffer_step(pre: BoundedBuffer, op: BufOp, post: BoundedBuffer) -> bool {
    post.capacity == pre.capacity && match op {
        BufOp::Produce(item) => if pre.queue@.len() < pre.capacity {
            &&& post.queue@ == pre.queue@.push(item)
            &&& post.produced@ == pre.produced@.push(item)
            &&& post.consumed@ == pre.consumed@
        } else {
            &&& post.queue@ == pre.queue@
            &&& post.produced@ == pre.produced@
            &&& post.consumed@ == pre.consumed@
        },
        BufOp::Consume => if pre.queue@.len() > 0 {
            &&& post.queue@ == pre.queue@.skip(1)
            &&& post.consumed@ == pre.consumed@.push(pre.queue@[0])
            &&& post.produced@ == pre.produced@
        } else {
            &&& post.queue@ == pre.queue@
            &&& post.produced@ == pre.produced@
            &&& post.consumed@ == pre.consumed@
        },
    }
}

/// `states` records a whole history: each consecutive pair of states is
/// related by the corresponding operation.
pub open spec fn buffer_run(states: Seq<BoundedBuffer>, ops: Seq<BufOp>) -> bool {
    &&& states.len() == ops.len() + 1
    &&& forall|i: int|
        0 <= i < ops.len() ==> buffer_step(#[trigger] states[i], ops[i], states[i + 1])
}

/// One operation keeps the journal accounting intact.
pub proof fn lemma_buffer_step_preserves_journals(pre: BoundedBuffer, op: BufOp, post: BoundedBuffer)
    requires
        pre.journals_ok(),
        buffer_step(pre, op, post),
    ensures
        post.journals_ok(),
{
    match op {
        BufOp::Produce(item) => {
            if pre.queue@.len() < pre.capacity {
                assert(post.consumed@ + post.queue@ =~= post.produced@);
            }
        },
        BufOp::Consume => {
            if pre.queue@.len() > 0 {
                assert(post.consumed@ + post.queue@ =~= post.produced@);
            }
        },
    }
}

/// FIFO law over whole histories: start any sequence of produce and
/// consume operations from a well-formed buffer, and after every prefix
/// the queue length stays between zero and the capacity and the items
/// consumed so far are exactly the oldest items produced, in production
/// order.
pub proof fn lemma_fifo_law_every_prefix(states: Seq<BoundedBuffer>, ops: Seq<BufOp>, i: int)
    requires
        buffer_run(states, ops),
        states[0].wf(),
        0 <= i < states.len(),
    ensures
        states[i].journals_ok(),
        states[i].queue@.len() <= states[i].capacity,
        states[i].consumed@.is_prefix_of(states[i].produced@),
    decreases i,
{
    if i > 0 {
        lemma_fifo_law_every_prefix(states, ops, i - 1);
        lemma_buffer_step_preserves_journals(states[i - 1], ops[i - 1], states[i]);
    }
    assert(states[i].consumed@ =~= states[i].produced@.subrange(
        0,
        states[i].consumed@.len() as int,
    ));
}

} // verus!
