use coord_kernel::errors::KernelError;
use coord_kernel::lock::MutualExclusionLock;
use coord_kernel::semaphore::CountingSemaphore;

#[test]
fn semaphore_initial_above_max_is_rejected() {
    let r = CountingSemaphore::new(5, 3);
    assert_eq!(r.err(), Some(KernelError::InitialExceedsMax));
}

#[test]
fn semaphore_count_law_holds_over_operations() {
    // count after any prefix == initial + releases - completed acquires
    let mut s = CountingSemaphore::new(3, 10).unwrap();
    assert_eq!(s.available_permits(), 3);
    assert!(s.acquire(1));
    assert!(s.acquire(2));
    assert_eq!(s.available_permits(), 3 - 2);
    let woken = s.release(4).unwrap();
    assert!(woken.is_empty());
    assert_eq!(s.available_permits(), 3 + 4 - 2);
    assert!(s.try_acquire());
    assert_eq!(s.available_permits(), 3 + 4 - 3);
}

#[test]
fn semaphore_acquire_blocks_at_zero_and_wakes_fifo() {
    let mut s = CountingSemaphore::new(1, 8).unwrap();
    assert!(s.acquire(10));
    // no permits left: the next two callers park, in order
    assert!(!s.acquire(11));
    assert!(!s.acquire(12));
    assert_eq!(s.waiting_count(), 2);
    assert_eq!(s.available_permits(), 0);
    // one unit wakes exactly the oldest waiter
    let woken = s.release(1).unwrap();
    assert_eq!(woken, vec![11]);
    assert_eq!(s.waiting_count(), 1);
    assert_eq!(s.available_permits(), 0);
    // two units wake the last waiter and leave one free permit
    let woken = s.release(2).unwrap();
    assert_eq!(woken, vec![12]);
    assert_eq!(s.available_permits(), 1);
}

#[test]
fn semaphore_release_past_max_is_rejected_unchanged() {
    let mut s = CountingSemaphore::new(2, 3).unwrap();
    let r = s.release(2);
    assert_eq!(r.err(), Some(KernelError::PermitOverflow));
    assert_eq!(s.available_permits(), 2);
    // a fitting release still works afterwards
    assert!(s.release(1).is_ok());
    assert_eq!(s.available_permits(), 3);
}

#[test]
fn semaphore_try_acquire_never_parks() {
    let mut s = CountingSemaphore::new(0, 4).unwrap();
    assert!(!s.try_acquire());
    assert_eq!(s.waiting_count(), 0);
    s.release(1).unwrap();
    assert!(s.try_acquire());
    assert_eq!(s.available_permits(), 0);
}

#[test]
fn lock_is_exclusive_until_exit() {
    let mut l = MutualExclusionLock::new();
    assert_eq!(l.held_by(), None);
    assert!(l.try_enter(7));
    assert!(!l.try_enter(8));
    assert_eq!(l.held_by(), Some(7));
    l.exit(7);
    assert!(l.try_enter(8));
    assert_eq!(l.held_by(), Some(8));
}
