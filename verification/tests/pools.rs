use coord_kernel::errors::KernelError;
use coord_kernel::pool::PriorityResourcePool;
use coord_kernel::pool::ResourcePool;

#[test]
fn pool_zero_size_is_rejected() {
    assert_eq!(ResourcePool::new(0).err(), Some(KernelError::ZeroCapacity));
    assert_eq!(PriorityResourcePool::new(0).err(), Some(KernelError::ZeroCapacity));
}

#[test]
fn pool_grants_at_most_its_size() {
    let mut p = ResourcePool::new(2).unwrap();
    assert!(p.try_acquire());
    assert!(p.try_acquire());
    assert_eq!(p.granted(), 2);
    assert!(!p.try_acquire());
    assert_eq!(p.granted(), 2);
    assert_eq!(p.release().unwrap(), None);
    assert_eq!(p.granted(), 1);
    assert!(p.try_acquire());
}

#[test]
fn pool_release_with_everything_free_is_rejected() {
    let mut p = ResourcePool::new(3).unwrap();
    assert_eq!(p.release().err(), Some(KernelError::PermitOverflow));
    assert_eq!(p.granted(), 0);
}

#[test]
fn pool_release_hands_resource_to_oldest_parked_task() {
    let mut p = ResourcePool::new(1).unwrap();
    assert!(p.acquire(1));
    assert!(!p.acquire(2));
    assert!(!p.acquire(3));
    // task 2 parked first, so the released resource is handed to it
    assert_eq!(p.release().unwrap(), Some(2));
    assert_eq!(p.release().unwrap(), Some(3));
    assert_eq!(p.release().unwrap(), None);
}

#[test]
fn priority_pool_admits_top_ranked_only() {
    let mut p = PriorityResourcePool::new(1).unwrap();
    p.request(1, 5);
    p.request(2, 9);
    // requester 1 is outranked by requester 2, so only 2 may take the
    // single resource
    assert!(!p.try_admit(1));
    assert!(p.try_admit(2));
    assert_eq!(p.granted(), 1);
    // the resource is busy now, so even the top-ranked requester waits
    assert!(!p.try_admit(1));
    p.release().unwrap();
    assert!(p.try_admit(1));
    assert_eq!(p.waiting_count(), 0);
}

#[test]
fn priority_pool_breaks_ties_by_arrival_order() {
    let mut p = PriorityResourcePool::new(1).unwrap();
    p.request(7, 4);
    p.request(8, 4);
    p.request(9, 4);
    // equal priorities are served first-come-first-served
    assert!(!p.try_admit(8));
    assert!(!p.try_admit(9));
    assert!(p.try_admit(7));
    p.release().unwrap();
    assert!(p.try_admit(8));
    p.release().unwrap();
    assert!(p.try_admit(9));
}

#[test]
fn priority_pool_low_priority_can_be_overtaken() {
    // documented starvation policy: a stream of higher priorities keeps
    // deferring a low-priority requester
    let mut p = PriorityResourcePool::new(1).unwrap();
    p.request(1, 1);
    p.request(2, 8);
    assert!(!p.try_admit(1));
    assert!(p.try_admit(2));
    p.release().unwrap();
    p.request(3, 9);
    assert!(!p.try_admit(1));
    assert!(p.try_admit(3));
    p.release().unwrap();
    // only once nobody outranks it does the low-priority requester get in
    assert!(p.try_admit(1));
}

#[test]
fn priority_pool_unknown_id_is_refused() {
    let mut p = PriorityResourcePool::new(2).unwrap();
    p.request(1, 3);
    assert!(!p.try_admit(42));
    assert_eq!(p.waiting_count(), 1);
}
