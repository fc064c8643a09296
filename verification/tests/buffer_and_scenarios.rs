use coord_kernel::buffer::BoundedBuffer;
use coord_kernel::errors::KernelError;
use coord_kernel::scenarios::problema_14;
use coord_kernel::scenarios::problema_18_a;
use coord_kernel::scenarios::problema_18_b;

#[test]
fn buffer_zero_capacity_is_rejected() {
    let r = BoundedBuffer::new(0);
    assert_eq!(r.err(), Some(KernelError::ZeroCapacity));
}

#[test]
fn buffer_is_fifo() {
    let mut b = BoundedBuffer::new(3).unwrap();
    assert!(b.try_produce(10));
    assert!(b.try_produce(20));
    assert!(b.try_produce(30));
    assert_eq!(b.try_consume(), Some(10));
    assert!(b.try_produce(40));
    assert_eq!(b.try_consume(), Some(20));
    assert_eq!(b.try_consume(), Some(30));
    assert_eq!(b.try_consume(), Some(40));
    assert_eq!(b.try_consume(), None);
}

#[test]
fn buffer_refuses_when_full_and_empty() {
    let mut b = BoundedBuffer::new(2).unwrap();
    assert_eq!(b.try_consume(), None);
    assert!(b.try_produce(1));
    assert!(b.try_produce(2));
    assert!(b.is_full());
    assert!(!b.try_produce(3));
    assert_eq!(b.len(), 2);
    assert_eq!(b.try_consume(), Some(1));
    assert!(!b.is_full());
    assert!(!b.is_empty());
    assert_eq!(b.capacity(), 2);
}

#[test]
fn drain_empties_the_buffer_in_fifo_order() {
    // the bear's move: once the jar is full, eat everything in one sitting
    let mut b = BoundedBuffer::new(3).unwrap();
    assert!(b.try_produce(4));
    assert!(b.try_produce(5));
    assert!(b.try_produce(6));
    assert!(b.is_full());
    let all = b.drain();
    assert_eq!(all, vec![4, 5, 6]);
    assert!(b.is_empty());
    // every slot is free again afterwards
    assert!(b.try_produce(7));
    assert_eq!(b.drain(), vec![7]);
    assert_eq!(b.drain(), Vec::<u64>::new());
}

#[test]
fn buffer_length_never_exceeds_capacity() {
    let mut b = BoundedBuffer::new(4).unwrap();
    for round in 0..6u64 {
        for i in 0..10u64 {
            b.try_produce(round * 10 + i);
            assert!(b.len() <= b.capacity());
        }
        while b.try_consume().is_some() {
            assert!(b.len() <= b.capacity());
        }
    }
}

#[test]
fn problema_14_consumes_one_through_ten_in_order() {
    let consumed = problema_14();
    assert_eq!(consumed, vec![1, 2, 3, 4, 5, 6, 7, 8, 9, 10]);
}

#[test]
fn problema_18_a_serves_all_users_in_arrival_order() {
    let served = problema_18_a();
    assert_eq!(served, vec![1, 2, 3, 4, 5, 6, 7, 8, 9, 10]);
}

#[test]
fn problema_18_b_serves_users_in_descending_priority() {
    // user u holds priority 11 - u, so user 1 outranks everyone
    let served = problema_18_b();
    assert_eq!(served, vec![1, 2, 3, 4, 5, 6, 7, 8, 9, 10]);
}
