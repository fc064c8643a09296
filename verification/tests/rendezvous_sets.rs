use coord_kernel::errors::KernelError;
use coord_kernel::rendezvous::complement;
use coord_kernel::rendezvous::RendezvousGroup;

#[test]
fn rendezvous_zero_kinds_is_rejected() {
    assert_eq!(RendezvousGroup::new(0).err(), Some(KernelError::ZeroCapacity));
}

#[test]
fn consume_set_needs_every_required_kind() {
    // the cigarette-smokers round: three kinds, a two-of-three requirement
    let mut g = RendezvousGroup::new(3).unwrap();
    g.contribute(0);
    // only one of the two required kinds is there yet
    assert!(!g.try_consume_set(&vec![0, 1]));
    assert_eq!(g.available(0), 1);
    g.contribute(1);
    assert!(g.try_consume_set(&vec![0, 1]));
    assert_eq!(g.available(0), 0);
    assert_eq!(g.available(1), 0);
    // consumption was atomic: nothing left over
    assert!(!g.try_consume_set(&vec![0, 1]));
}

#[test]
fn complement_placement_unblocks_exactly_one_consumer() {
    // the agent holds kind 2 and places the complement {0, 1}: only the
    // consumer whose requirement is {0, 1} can proceed
    let mut g = RendezvousGroup::new(3).unwrap();
    let placed = complement(3, 2);
    assert_eq!(placed, vec![0, 1]);
    for k in placed.iter() {
        g.contribute(*k);
    }
    assert!(!g.try_consume_set(&vec![0, 2]));
    assert!(!g.try_consume_set(&vec![1, 2]));
    assert!(g.try_consume_set(&vec![0, 1]));
}

#[test]
fn disjoint_consumers_do_not_block_each_other() {
    let mut g = RendezvousGroup::new(4).unwrap();
    g.contribute(0);
    g.contribute(1);
    g.contribute(2);
    g.contribute(3);
    // both pairs are available; taking one leaves the other available
    assert!(g.try_consume_set(&vec![0, 1]));
    assert!(g.try_consume_set(&vec![2, 3]));
}

#[test]
fn multiset_requirement_counts_units() {
    // the bicycle round: two wheels (kind 0), one frame (1), one handlebar (2)
    let mut g = RendezvousGroup::new(3).unwrap();
    g.contribute(0);
    g.contribute(1);
    g.contribute(2);
    // one wheel is not two wheels
    assert!(!g.try_consume_set(&vec![0, 0, 1, 2]));
    assert_eq!(g.available(0), 1);
    assert_eq!(g.available(1), 1);
    g.contribute(0);
    assert!(g.try_consume_set(&vec![0, 0, 1, 2]));
    assert_eq!(g.available(0), 0);
    assert_eq!(g.available(1), 0);
    assert_eq!(g.available(2), 0);
}

#[test]
fn contributions_accumulate_per_kind() {
    let mut g = RendezvousGroup::new(2).unwrap();
    assert_eq!(g.kinds(), 2);
    g.contribute(0);
    g.contribute(0);
    g.contribute(0);
    assert_eq!(g.available(0), 3);
    assert_eq!(g.available(1), 0);
    assert!(g.try_consume_set(&vec![0, 0]));
    assert_eq!(g.available(0), 1);
}
