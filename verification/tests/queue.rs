use yos_kernel::queue::BoundedQueue;

#[test]
fn fifo_order_within_capacity() {
    let mut q = BoundedQueue::new(5);
    assert!(q.is_empty());
    assert!(q.push(10).is_ok());
    assert!(q.push(20).is_ok());
    assert!(q.push(30).is_ok());
    assert_eq!(q.len(), 3);
    assert_eq!(q.pop(), Some(10));
    assert_eq!(q.pop(), Some(20));
    assert_eq!(q.pop(), Some(30));
    assert_eq!(q.pop(), None);
    assert!(q.is_empty());
}

#[test]
fn overflow_keeps_oldest_and_drops_excess() {
    let mut q = BoundedQueue::new(3);
    assert!(q.push(1).is_ok());
    assert!(q.push(2).is_ok());
    assert!(q.push(3).is_ok());
    assert_eq!(q.push(4), Err(4));
    assert_eq!(q.push(5), Err(5));
    assert_eq!(q.len(), 3);
    assert_eq!(q.pop(), Some(1));
    assert_eq!(q.pop(), Some(2));
    assert_eq!(q.pop(), Some(3));
    assert_eq!(q.pop(), None);
}

#[test]
fn interleaved_pushes_and_pops_stay_in_order() {
    let mut q = BoundedQueue::new(4);
    assert!(q.push(1).is_ok());
    assert!(q.push(2).is_ok());
    assert_eq!(q.pop(), Some(1));
    assert!(q.push(3).is_ok());
    assert!(q.push(4).is_ok());
    assert!(q.push(5).is_ok());
    assert_eq!(q.pop(), Some(2));
    assert_eq!(q.pop(), Some(3));
    assert_eq!(q.pop(), Some(4));
    assert_eq!(q.pop(), Some(5));
    assert_eq!(q.pop(), None);
}
