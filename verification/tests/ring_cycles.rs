use coord_kernel::errors::KernelError;
use coord_kernel::ring::CyclicResourceRing;
use coord_kernel::ring::Estado;

/// Runs actor `i` through one full hungry/eat/think round, assuming both
/// of its resources are free.
fn one_round(ring: &mut CyclicResourceRing, i: usize) {
    ring.become_hungry(i);
    assert!(ring.try_take_lower(i));
    assert!(ring.try_take_upper(i));
    assert_eq!(ring.actor_state(i), Estado::Comiendo);
    ring.finish_eating(i);
    assert_eq!(ring.actor_state(i), Estado::Pensando);
}

#[test]
fn ring_needs_at_least_two_actors() {
    assert_eq!(CyclicResourceRing::new(0).err(), Some(KernelError::TooFewActors));
    assert_eq!(CyclicResourceRing::new(1).err(), Some(KernelError::TooFewActors));
    assert!(CyclicResourceRing::new(2).is_ok());
}

#[test]
fn five_actors_cycle_without_getting_stuck() {
    let mut ring = CyclicResourceRing::new(5).unwrap();
    for cycle in 0..4 {
        for i in 0..5 {
            one_round(&mut ring, i);
        }
        // all resources are free again after every full cycle
        for f in 0..5 {
            assert!(ring.is_resource_free(f), "cycle {} resource {}", cycle, f);
        }
    }
}

#[test]
fn neighbors_exclude_each_other_on_the_shared_resource() {
    let mut ring = CyclicResourceRing::new(5).unwrap();
    // actor 1 eats, holding resources 1 and 2
    ring.become_hungry(1);
    assert!(ring.try_take_lower(1));
    assert!(ring.try_take_upper(1));
    assert!(!ring.is_resource_free(1));
    assert!(!ring.is_resource_free(2));
    // actor 0 needs resource 1 as its upper: it takes 0 and then waits
    ring.become_hungry(0);
    assert!(ring.try_take_lower(0));
    assert!(!ring.try_take_upper(0));
    // actor 2 needs resource 2 as its lower: it cannot even start
    ring.become_hungry(2);
    assert!(!ring.try_take_lower(2));
    // actor 3 is untouched by either and can eat
    ring.become_hungry(3);
    assert!(ring.try_take_lower(3));
    assert!(ring.try_take_upper(3));
    // once actor 1 finishes, both neighbors proceed
    ring.finish_eating(1);
    assert!(ring.try_take_upper(0));
    assert!(ring.try_take_lower(2));
}

#[test]
fn last_actor_takes_resource_zero_first() {
    // actor 4's pair is {4, 0}; index order says resource 0 first
    let mut ring = CyclicResourceRing::new(5).unwrap();
    ring.become_hungry(0);
    assert!(ring.try_take_lower(0));
    // resource 0 is taken, so actor 4 cannot take its lower resource,
    // even though resource 4 is free
    ring.become_hungry(4);
    assert!(!ring.try_take_lower(4));
    assert!(ring.is_resource_free(4));
    ring.become_hungry(1);
    assert!(ring.try_take_lower(1));
    assert!(!ring.try_take_upper(0));
    assert!(ring.try_take_upper(1));
    ring.finish_eating(1);
    assert!(ring.try_take_upper(0));
    ring.finish_eating(0);
    assert!(ring.try_take_lower(4));
    assert!(ring.try_take_upper(4));
    ring.finish_eating(4);
}

#[test]
fn two_actor_ring_shares_both_resources() {
    let mut ring = CyclicResourceRing::new(2).unwrap();
    ring.become_hungry(0);
    ring.become_hungry(1);
    assert!(ring.try_take_lower(0));
    // both actors contend for the same pair {0, 1}
    assert!(!ring.try_take_lower(1));
    assert!(ring.try_take_upper(0));
    ring.finish_eating(0);
    assert!(ring.try_take_lower(1));
    assert!(ring.try_take_upper(1));
    ring.finish_eating(1);
}
