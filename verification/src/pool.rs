//! Pools of N interchangeable resources, plain and priority-ordered.
//!
//! The plain [`ResourcePool`] delegates straight to a counting semaphore of
//! size N: printers, server connections, waiting-room chairs.  The
//! [`PriorityResourcePool`] adds admission control: requesters register in a
//! waiting list ordered by descending priority, ties broken by arrival order
//! (FIFO), and only a requester ranked among the top N may take a permit.
//!
//! Starvation policy, stated on purpose: a low-priority requester may wait
//! indefinitely while higher-priority requesters keep arriving.  That is the
//! documented trade-off of priority admission, not a defect to paper over.

use vstd::prelude::*;

use crate::errors::KernelError;
use crate::semaphore::CountingSemaphore;

verus! {

/// Pool of N interchangeable resources gated by one semaphore.
pub struct ResourcePool {
    /// One permit per free resource.
    pub permits: CountingSemaphore,
    /// Number of resources in the pool.
    pub size: usize,
}

impl ResourcePool {
    /// Pool invariant: the semaphore is sized to the pool, so concurrently
    /// granted permits (`size - permits.count`) never exceed the pool size.
    pub open spec fn wf(&self) -> bool {
        &&& self.size > 0
        &&& self.permits.wf()
        &&& self.permits.max == self.size
    }

    /// Creates a pool of `size` resources, all free; an empty pool is a
    /// configuration error.
    pub fn new(size: usize) -> (r: Result<ResourcePool, KernelError>)
        ensures
            r is Ok <==> size > 0,
            r matches Ok(p) ==> {
                &&& p.wf()
                &&& p.size == size
                &&& p.permits.count == size
                &&& p.permits.waiters@.len() == 0
            },
            r matches Err(e) ==> e == KernelError::ZeroCapacity,
    {
        if size == 0 {
            return Err(KernelError::ZeroCapacity);
        }
        let permits = match CountingSemaphore::new(size, size) {
            Ok(s) => s,
            Err(_) => {
                return unreached();
            },
        };
        Ok(ResourcePool { permits, size })
    }

    /// Blocking acquire for `task`: takes a resource at once when one is
    /// free, otherwise parks the caller in the semaphore's FIFO queue.
    pub fn acquire(&mut self, task: u64) -> (granted: bool)
        requires
            old(self).wf(),
            !old(self).permits.waiters@.contains(task),
        ensures
            final(self).wf(),
            final(self).size == old(self).size,
            granted == (old(self).permits.count > 0),
            granted ==> final(self).permits.count == old(self).permits.count - 1
                && final(self).permits.waiters@ == old(self).permits.waiters@,
            !granted ==> final(self).permits.count == 0 && final(self).permits.waiters@ == old(
                self,
            ).permits.waiters@.push(task),
    {
        self.permits.acquire(task)
    }

    /// Non-blocking acquire: takes a resource iff one is free right now.
    pub fn try_acquire(&mut self) -> (granted: bool)
        requires
            old(self).wf(),
        ensures
            final(self).wf(),
            final(self).size == old(self).size,
            granted == (old(self).permits.count > 0),
            granted ==> final(self).permits.count == old(self).permits.count - 1
                && final(self).permits.waiters@ == old(self).permits.waiters@,
            !granted ==> *final(self) == *old(self),
    {
        self.permits.try_acquire()
    }

    /// Returns one resource.  The oldest parked task, if any, takes it over
    /// directly and is returned.  Releasing when every resource is already
    /// free is an accounting error and leaves the pool unchanged.
    pub fn release(&mut self) -> (r: Result<Option<u64>, KernelError>)
        requires
            old(self).wf(),
        ensures
            final(self).wf(),
            final(self).size == old(self).size,
            r is Ok <==> (old(self).permits.count < old(self).size || old(
                self,
            ).permits.waiters@.len() > 0),
            r matches Ok(w) ==> {
                &&& old(self).permits.waiters@.len() > 0 ==> {
                    &&& w == Some(old(self).permits.waiters@[0])
                    &&& final(self).permits.waiters@ == old(self).permits.waiters@.skip(1)
                    &&& final(self).permits.count == old(self).permits.count
                }
                &&& old(self).permits.waiters@.len() == 0 ==> {
                    &&& w is None
                    &&& final(self).permits.waiters@ == old(self).permits.waiters@
                    &&& final(self).permits.count == old(self).permits.count + 1
                }
            },
            r matches Err(e) ==> e == KernelError::PermitOverflow && *final(self) == *old(self),
    {
        match self.permits.release(1) {
            Ok(mut woken) => {
                if woken.len() > 0 {
                    let id = woken.remove(0);
                    Ok(Some(id))
                } else {
                    Ok(None)
                }
            },
            Err(e) => Err(e),
        }
    }

    /// Resources currently granted.  Non-authoritative inspection: never a
    /// basis for a control decision.
    pub fn granted(&self) -> (n: usize)
        requires
            self.wf(),
        ensures
            n == self.size - self.permits.count,
    {
        self.size - self.permits.available_permits()
    }
}

/// One registered requester in the priority waiting list.
#[derive(Clone, Copy, Debug, PartialEq, Eq, Structural)]
pub struct WaitingRequest {
    /// Requester identity.
    pub id: u64,
    /// Larger means served earlier.
    pub priority: u64,
    /// Registration order, used to break priority ties FIFO.
    pub arrival: u64,
}

/// Waiting list order: descending priority, FIFO among equal priorities.
pub open spec fn priority_sorted(s: Seq<WaitingRequest>) -> bool {
    forall|i: int, j: int|
        0 <= i < j < s.len() ==> (#[trigger] s[i].priority > #[trigger] s[j].priority || (
        s[i].priority == s[j].priority && s[i].arrival < s[j].arrival))
}

/// Some entry of the waiting list carries this id.
pub open spec fn contains_id(s: Seq<WaitingRequest>, id: u64) -> bool {
    exists|i: int| 0 <= i < s.len() && #[trigger] s[i].id == id
}

/// Where a new request of the given priority enters the list: after every
/// entry of at least that priority, before every strictly lower one.
pub open spec fn insert_pos(s: Seq<WaitingRequest>, priority: u64) -> int
    decreases s.len(),
{
    if s.len() == 0 {
        0
    } else if s[0].priority >= priority {
        1 + insert_pos(s.drop_first(), priority)
    } else {
        0
    }
}

/// Index of the first entry carrying `id` (the list length if none does).
pub open spec fn id_index(s: Seq<WaitingRequest>, id: u64) -> int
    decreases s.len(),
{
    if s.len() == 0 {
        0
    } else if s[0].id == id {
        0
    } else {
        1 + id_index(s.drop_first(), id)
    }
}

/// On a priority-sorted list, the insert position is the unique split: all
/// entries of priority at least `priority` before it, all lower ones after.
pub proof fn lemma_insert_pos_of_split(s: Seq<WaitingRequest>, priority: u64, p: int)
    requires
        0 <= p <= s.len(),
        forall|q: int| 0 <= q < p ==> #[trigger] s[q].priority >= priority,
        forall|q: int| p <= q < s.len() ==> #[trigger] s[q].priority < priority,
    ensures
        insert_pos(s, priority) == p,
    decreases s.len(),
{
    if p == 0 {
        if s.len() > 0 {
            assert(s[0].priority < priority);
        }
    } else {
        assert(s[0].priority >= priority);
        let t = s.drop_first();
        assert forall|q: int| 0 <= q < p - 1 implies #[trigger] t[q].priority >= priority by {
            assert(t[q] == s[q + 1]);
        }
        assert forall|q: int| p - 1 <= q < t.len() implies #[trigger] t[q].priority < priority by {
            assert(t[q] == s[q + 1]);
        }
        lemma_insert_pos_of_split(t, priority, p - 1);
    }
}

/// The first scan hit is where `id_index` points.
pub proof fn lemma_id_index_first(s: Seq<WaitingRequest>, id: u64, p: int)
    requires
        0 <= p < s.len(),
        s[p].id == id,
        forall|q: int| 0 <= q < p ==> #[trigger] s[q].id != id,
    ensures
        id_index(s, id) == p,
    decreases s.len(),
{
    if p > 0 {
        assert(s[0].id != id);
        let t = s.drop_first();
        assert(t[p - 1] == s[p]);
        assert forall|q: int| 0 <= q < p - 1 implies #[trigger] t[q].id != id by {
            assert(t[q] == s[q + 1]);
        }
        lemma_id_index_first(t, id, p - 1);
    }
}

/// A prefix free of `id` pushes `id_index` at least past it.
pub proof fn lemma_id_index_ge(s: Seq<WaitingRequest>, id: u64, p: int)
    requires
        0 <= p <= s.len(),
        forall|q: int| 0 <= q < p ==> #[trigger] s[q].id != id,
    ensures
        id_index(s, id) >= p,
    decreases s.len(),
{
    if s.len() == 0 {
    } else if s[0].id == id {
        assert(p == 0);
    } else {
        let t = s.drop_first();
        let p1: int = if p > 0 {
            p - 1
        } else {
            0
        };
        assert forall|q: int| 0 <= q < p1 implies #[trigger] t[q].id != id by {
            assert(t[q] == s[q + 1]);
        }
        lemma_id_index_ge(t, id, p1);
    }
}

/// Pool of N resources with priority-ordered admission.
///
/// A requester registers with [`request`](PriorityResourcePool::request) and
/// then attempts [`try_admit`](PriorityResourcePool::try_admit); admission
/// succeeds only while the requester ranks among the top N waiting entries
/// and a resource is free.  A requester that is not admitted re-checks after
/// a bounded backoff in its driver — the list itself never spins.
pub struct PriorityResourcePool {
    /// One permit per free resource.
    pub permits: CountingSemaphore,
    /// Number of resources in the pool.
    pub size: usize,
    /// Registered requesters, best-ranked first.
    pub waiting: Vec<WaitingRequest>,
    /// Next arrival stamp to hand out.
    pub next_arrival: u64,
}

impl PriorityResourcePool {
    /// Invariant: the list is priority-sorted with FIFO ties, ids are
    /// unique, arrival stamps are in the past, and the semaphore is sized
    /// to the pool with nobody parked on it (waiting happens in the list).
    pub open spec fn wf(&self) -> bool {
        &&& self.size > 0
        &&& self.permits.wf()
        &&& self.permits.max == self.size
        &&& self.permits.waiters@.len() == 0
        &&& priority_sorted(self.waiting@)
        &&& forall|i: int|
            0 <= i < self.waiting@.len() ==> #[trigger] self.waiting@[i].arrival
                < self.next_arrival
        &&& forall|i: int, j: int|
            0 <= i < j < self.waiting@.len() ==> #[trigger] self.waiting@[i].id
                != #[trigger] self.waiting@[j].id
    }

    /// Creates a priority pool of `size` resources, all free, with an empty
    /// waiting list; an empty pool is a configuration error.
    pub fn new(size: usize) -> (r: Result<PriorityResourcePool, KernelError>)
        ensures
            r is Ok <==> size > 0,
            r matches Ok(p) ==> {
                &&& p.wf()
                &&& p.size == size
                &&& p.permits.count == size
                &&& p.waiting@.len() == 0
                &&& p.next_arrival == 0
            },
            r matches Err(e) ==> e == KernelError::ZeroCapacity,
    {
        if size == 0 {
            return Err(KernelError::ZeroCapacity);
        }
        let permits = match CountingSemaphore::new(size, size) {
            Ok(s) => s,
            Err(_) => {
                return unreached();
            },
        };
        Ok(PriorityResourcePool { permits, size, waiting: Vec::new(), next_arrival: 0 })
    }

    /// Registers requester `id` with the given priority: it enters the list
    /// after every entry of priority at least as high — descending
    /// priority, FIFO among equals — and before every strictly lower one.
    pub fn request(&mut self, id: u64, priority: u64)
        requires
            old(self).wf(),
            !contains_id(old(self).waiting@, id),
            old(self).next_arrival < u64::MAX,
        ensures
            final(self).wf(),
            final(self).size == old(self).size,
            final(self).permits == old(self).permits,
            final(self).next_arrival == old(self).next_arrival + 1,
            final(self).waiting@ == old(self).waiting@.insert(
                insert_pos(old(self).waiting@, priority),
                (WaitingRequest { id, priority, arrival: old(self).next_arrival }),
            ),
            forall|q: int|
                0 <= q < insert_pos(old(self).waiting@, priority) ==> #[trigger] old(
                    self,
                ).waiting@[q].priority >= priority,
            forall|q: int|
                insert_pos(old(self).waiting@, priority) <= q < old(self).waiting@.len()
                    ==> #[trigger] old(self).waiting@[q].priority < priority,
    {
        let mut p: usize = 0;
        while p < self.waiting.len() && self.waiting[p].priority >= priority
            invariant
                p <= self.waiting@.len(),
                *self == *old(self),
                forall|q: int| 0 <= q < p ==> #[trigger] self.waiting@[q].priority >= priority,
            decreases self.waiting@.len() - p,
        {
            p = p + 1;
        }
        proof {
            assert forall|q: int|
                p <= q < self.waiting@.len() implies #[trigger] self.waiting@[q].priority
                < priority by {
                if q > p {
                    assert(self.waiting@[p as int].priority >= self.waiting@[q].priority);
                }
            }
        }
        let entry = WaitingRequest { id, priority, arrival: self.next_arrival };
        let ghost before = self.waiting@;
        proof {
            lemma_insert_pos_of_split(before, priority, p as int);
        }
        self.waiting.insert(p, entry);
        self.next_arrival = self.next_arrival + 1;
        proof {
            before.insert_ensures(p as int, entry);
            assert forall|x: int, y: int|
                0 <= x < y < self.waiting@.len() implies (#[trigger] self.waiting@[x].priority
                > #[trigger] self.waiting@[y].priority || (self.waiting@[x].priority
                == self.waiting@[y].priority && self.waiting@[x].arrival
                < self.waiting@[y].arrival)) by {
                if x < p && y < p {
                } else if x == p as int {
                    assert(self.waiting@[y] == before[y - 1]);
                } else if y == p as int {
                    assert(self.waiting@[x] == before[x]);
                } else if x > p {
                    assert(self.waiting@[x] == before[x - 1]);
                    assert(self.waiting@[y] == before[y - 1]);
                } else {
                    assert(self.waiting@[x] == before[x]);
                    assert(self.waiting@[y] == before[y - 1]);
                }
            }
            assert forall|x: int, y: int|
                0 <= x < y < self.waiting@.len() implies #[trigger] self.waiting@[x].id
                != #[trigger] self.waiting@[y].id by {
                if self.waiting@[x].id == self.waiting@[y].id {
                    if x != p && y != p {
                    } else if x == p as int {
                        assert(before[y - 1].id == id);
                        assert(contains_id(before, id));
                    } else {
                        assert(before[x].id == id);
                        assert(contains_id(before, id));
                    }
                }
            }
        }
    }

    /// Attempts to admit requester `id`: succeeds iff `id` is ranked among
    /// the top `size` waiting entries and a resource is free right now.  On
    /// success the requester leaves the list and holds one resource.  A
    /// refused requester stays registered and retries later; nothing
    /// changes.  Low priorities can be deferred forever by a stream of
    /// higher ones — the documented starvation trade-off.
    pub fn try_admit(&mut self, id: u64) -> (admitted: bool)
        requires
            old(self).wf(),
        ensures
            final(self).wf(),
            final(self).size == old(self).size,
            final(self).next_arrival == old(self).next_arrival,
            admitted == (contains_id(old(self).waiting@, id) && id_index(old(self).waiting@, id)
                < old(self).size && old(self).permits.count > 0),
            admitted ==> {
                &&& final(self).waiting@ == old(self).waiting@.remove(
                    id_index(old(self).waiting@, id),
                )
                &&& final(self).permits.count == old(self).permits.count - 1
            },
            !admitted ==> *final(self) == *old(self),
    {
        let limit: usize = if self.size < self.waiting.len() {
            self.size
        } else {
            self.waiting.len()
        };
        let mut p: usize = 0;
        let mut found = false;
        while p < limit
            invariant_except_break
                !found,
                p <= limit,
                limit == if self.size < self.waiting@.len() {
                    self.size as int
                } else {
                    self.waiting@.len() as int
                },
                *self == *old(self),
                forall|q: int| 0 <= q < p ==> #[trigger] self.waiting@[q].id != id,
            ensures
                *self == *old(self),
                p <= limit,
                limit == if self.size < self.waiting@.len() {
                    self.size as int
                } else {
                    self.waiting@.len() as int
                },
                found ==> p < limit && self.waiting@[p as int].id == id,
                !found ==> forall|q: int| 0 <= q < limit ==> #[trigger] self.waiting@[q].id != id,
            decreases limit - p,
        {
            if self.waiting[p].id == id {
                found = true;
                break ;
            }
            p = p + 1;
        }
        if !found {
            proof {
                if limit == self.waiting@.len() {
                    assert(!contains_id(self.waiting@, id));
                } else {
                    lemma_id_index_ge(self.waiting@, id, limit as int);
                }
            }
            return false;
        }
        proof {
            lemma_id_index_first(self.waiting@, id, p as int);
        }
        let got = self.permits.try_acquire();
        if !got {
            return false;
        }
        let ghost before = self.waiting@;
        self.waiting.remove(p);
        proof {
            before.remove_ensures(p as int);
            assert forall|x: int, y: int|
                0 <= x < y < self.waiting@.len() implies (#[trigger] self.waiting@[x].priority
                > #[trigger] self.waiting@[y].priority || (self.waiting@[x].priority
                == self.waiting@[y].priority && self.waiting@[x].arrival
                < self.waiting@[y].arrival)) by {
                let x0: int = if x < p { x } else { x + 1 };
                let y0: int = if y < p { y } else { y + 1 };
                assert(self.waiting@[x] == before[x0]);
                assert(self.waiting@[y] == before[y0]);
            }
            assert forall|x: int, y: int|
                0 <= x < y < self.waiting@.len() implies #[trigger] self.waiting@[x].id
                != #[trigger] self.waiting@[y].id by {
                let x0: int = if x < p { x } else { x + 1 };
                let y0: int = if y < p { y } else { y + 1 };
                assert(self.waiting@[x] == before[x0]);
                assert(self.waiting@[y] == before[y0]);
            }
            assert forall|i: int|
                0 <= i < self.waiting@.len() implies #[trigger] self.waiting@[i].arrival
                < self.next_arrival by {
                let i0: int = if i < p { i } else { i + 1 };
                assert(self.waiting@[i] == before[i0]);
            }
        }
        true
    }

    /// Returns one resource to the pool.  Releasing when every resource is
    /// already free is an accounting error and leaves the pool unchanged.
    pub fn release(&mut self) -> (r: Result<(), KernelError>)
        requires
            old(self).wf(),
        ensures
            final(self).wf(),
            final(self).size == old(self).size,
            final(self).waiting@ == old(self).waiting@,
            final(self).next_arrival == old(self).next_arrival,
            r is Ok <==> old(self).permits.count < old(self).size,
            r is Ok ==> final(self).permits.count == old(self).permits.count + 1,
            r matches Err(e) ==> e == KernelError::PermitOverflow && *final(self) == *old(self),
    {
        match self.permits.release(1) {
            Ok(_) => Ok(()),
            Err(e) => Err(e),
        }
    }

    /// Resources currently granted.  Non-authoritative inspection.
    pub fn granted(&self) -> (n: usize)
        requires
            self.wf(),
        ensures
            n == self.size - self.permits.count,
    {
        self.size - self.permits.available_permits()
    }

    /// Number of registered requesters.  Non-authoritative inspection.
    pub fn waiting_count(&self) -> (n: usize)
        ensures
            n == self.waiting@.len(),
    {
        self.waiting.len()
    }
}

} // verus!
