//! End-to-end scenarios run as verified, deterministic schedules.
//!
//! Each function here plays out one of the classic driver programs as a
//! sequential schedule over the kernel's state machines and returns the
//! observable outcome, proved exact.  A concurrent driver replays the same
//! operations from real tasks; the contracts of the operations themselves
//! guarantee the same observations for any interleaving the kernel admits.

use vstd::prelude::*;

use crate::buffer::BoundedBuffer;
use crate::pool::contains_id;
use crate::pool::id_index;
use crate::pool::lemma_insert_pos_of_split;
use crate::pool::PriorityResourcePool;
use crate::pool::ResourcePool;
use crate::pool::WaitingRequest;

verus! {

/// Producer/consumer round through a capacity-5 bounded buffer: one
/// producer emits items 1 through 10, one consumer takes them all.  The
/// consumer receives exactly 1, 2, ..., 10 in ascending order, and the
/// buffer never holds more than 5 items at any point — the loop invariants
/// carry the buffer's well-formedness, whose capacity bound is 5.
pub fn problema_14() -> (consumed: Vec<u64>)
    ensures
        consumed@.len() == 10,
        forall|i: int| 0 <= i < 10 ==> consumed@[i] == i + 1,
{
    let mut buffer = match BoundedBuffer::new(5) {
        Ok(b) => b,
        Err(_) => unreached(),
    };
    let mut out: Vec<u64> = Vec::new();
    let mut i: u64 = 1;
    while i <= 5
        invariant
            1 <= i <= 6,
            buffer.wf(),
            buffer.capacity == 5,
            buffer.queue@.len() == i - 1,
            forall|j: int| 0 <= j < i - 1 ==> buffer.queue@[j] == j + 1,
        decreases 6 - i,
    {
        let _accepted = buffer.try_produce(i);
        i = i + 1;
    }
    while i <= 10
        invariant
            6 <= i <= 11,
            buffer.wf(),
            buffer.capacity == 5,
            buffer.queue@.len() == 5,
            forall|j: int| 0 <= j < 5 ==> buffer.queue@[j] == i - 5 + j,
            out@.len() == i - 6,
            forall|j: int| 0 <= j < i - 6 ==> out@[j] == j + 1,
        decreases 11 - i,
    {
        let item = match buffer.try_consume() {
            Some(v) => v,
            None => unreached(),
        };
        out.push(item);
        let _accepted = buffer.try_produce(i);
        i = i + 1;
    }
    let mut r: u64 = 0;
    while r < 5
        invariant
            0 <= r <= 5,
            buffer.wf(),
            buffer.capacity == 5,
            buffer.queue@.len() == 5 - r,
            forall|j: int| 0 <= j < 5 - r ==> buffer.queue@[j] == 6 + r + j,
            out@.len() == 5 + r,
            forall|j: int| 0 <= j < 5 + r ==> out@[j] == j + 1,
        decreases 5 - r,
    {
        let item = match buffer.try_consume() {
            Some(v) => v,
            None => unreached(),
        };
        out.push(item);
        r = r + 1;
    }
    out
}

/// Ten users share two printers through a plain resource pool.  Users are
/// served in arrival order; at most two hold a printer at once — the pool's
/// permit accounting, carried by the loop invariant, never lets the granted
/// count pass the pool size.
pub fn problema_18_a() -> (served: Vec<u64>)
    ensures
        served@.len() == 10,
        forall|i: int| 0 <= i < 10 ==> served@[i] == i + 1,
{
    let mut pool = match ResourcePool::new(2) {
        Ok(p) => p,
        Err(_) => unreached(),
    };
    let mut served: Vec<u64> = Vec::new();
    let mut u: u64 = 1;
    while u <= 10
        invariant
            1 <= u <= 11,
            pool.wf(),
            pool.size == 2,
            pool.permits.waiters@.len() == 0,
            pool.permits.count == (if u <= 2 {
                3 - u
            } else {
                0int
            }),
            served@.len() == u - 1,
            forall|j: int| 0 <= j < u - 1 ==> served@[j] == j + 1,
        decreases 11 - u,
    {
        let got = pool.try_acquire();
        if !got {
            // both printers are busy: the earliest-served user finishes
            match pool.release() {
                Ok(_) => {},
                Err(_) => {
                    return unreached();
                },
            }
            let _granted = pool.try_acquire();
        }
        served.push(u);
        u = u + 1;
    }
    match pool.release() {
        Ok(_) => {},
        Err(_) => {
            return unreached();
        },
    }
    match pool.release() {
        Ok(_) => {},
        Err(_) => {
            return unreached();
        },
    }
    served
}

/// Ten users with distinct priorities share two printers through the
/// priority pool: user `u` has priority `11 - u`, so user 1 outranks all.
/// Every user registers first; printers are then granted strictly in
/// descending priority order, so the service order is exactly user 1
/// through user 10.
pub fn problema_18_b() -> (served: Vec<u64>)
    ensures
        served@.len() == 10,
        forall|i: int| 0 <= i < 10 ==> served@[i] == i + 1,
{
    let mut pool = match PriorityResourcePool::new(2) {
        Ok(p) => p,
        Err(_) => unreached(),
    };
    let mut u: u64 = 1;
    while u <= 10
        invariant
            1 <= u <= 11,
            pool.wf(),
            pool.size == 2,
            pool.permits.count == 2,
            pool.next_arrival == u - 1,
            pool.waiting@.len() == u - 1,
            forall|j: int|
                0 <= j < u - 1 ==> pool.waiting@[j] == (WaitingRequest {
                    id: (j + 1) as u64,
                    priority: (10 - j) as u64,
                    arrival: j as u64,
                }),
        decreases 11 - u,
    {
        let ghost wbefore = pool.waiting@;
        proof {
            assert forall|q: int| 0 <= q < wbefore.len() implies #[trigger] wbefore[q].id != u by {
                assert(wbefore[q] == (WaitingRequest {
                    id: (q + 1) as u64,
                    priority: (10 - q) as u64,
                    arrival: q as u64,
                }));
            }
            assert forall|q: int|
                0 <= q < wbefore.len() implies #[trigger] wbefore[q].priority >= (11 - u) as u64 by {
                assert(wbefore[q] == (WaitingRequest {
                    id: (q + 1) as u64,
                    priority: (10 - q) as u64,
                    arrival: q as u64,
                }));
            }
            lemma_insert_pos_of_split(wbefore, (11 - u) as u64, wbefore.len() as int);
        }
        pool.request(u, 11 - u);
        proof {
            let entry = WaitingRequest { id: u, priority: (11 - u) as u64, arrival: (u - 1) as u64 };
            assert(pool.waiting@ =~= wbefore.push(entry));
        }
        u = u + 1;
    }
    let mut served: Vec<u64> = Vec::new();
    let mut v: u64 = 1;
    while v <= 10
        invariant
            1 <= v <= 11,
            pool.wf(),
            pool.size == 2,
            pool.next_arrival == 10,
            pool.waiting@.len() == 11 - v,
            forall|j: int|
                0 <= j < 11 - v ==> pool.waiting@[j] == (WaitingRequest {
                    id: (v + j) as u64,
                    priority: (11 - v - j) as u64,
                    arrival: (v - 1 + j) as u64,
                }),
            pool.permits.count == (if v <= 2 {
                3 - v
            } else {
                0int
            }),
            served@.len() == v - 1,
            forall|j: int| 0 <= j < v - 1 ==> served@[j] == j + 1,
        decreases 11 - v,
    {
        let ghost wbefore = pool.waiting@;
        proof {
            assert(wbefore[0] == (WaitingRequest {
                id: v,
                priority: (11 - v) as u64,
                arrival: (v - 1) as u64,
            }));
            assert(wbefore[0].id == v);
            assert(contains_id(wbefore, v));
            assert(id_index(wbefore, v) == 0);
        }
        let admitted = pool.try_admit(v);
        if !admitted {
            // no printer is free: one of the two current holders finishes
            match pool.release() {
                Ok(_) => {},
                Err(_) => {
                    return unreached();
                },
            }
            let admitted_retry = pool.try_admit(v);
            proof {
                assert(admitted_retry);
                wbefore.remove_ensures(0);
                assert forall|j: int|
                    0 <= j < pool.waiting@.len() implies #[trigger] pool.waiting@[j] == wbefore[j
                    + 1] by {}
            }
        } else {
            proof {
                wbefore.remove_ensures(0);
                assert forall|j: int|
                    0 <= j < pool.waiting@.len() implies #[trigger] pool.waiting@[j] == wbefore[j
                    + 1] by {}
            }
        }
        served.push(v);
        v = v + 1;
    }
    match pool.release() {
        Ok(_) => {},
        Err(_) => {
            return unreached();
        },
    }
    match pool.release() {
        Ok(_) => {},
        Err(_) => {
            return unreached();
        },
    }
    served
}

} // verus!
