use bounded_queue::queue::BoundedQueue;

#[test]
fn put_item_in_queue() {
    let mut queue = BoundedQueue::new(2);
    assert!(queue.try_put(1).is_ok());
    let item = queue.try_take();
    assert_eq!(item, Some(1));
}

#[test]
fn offer_item_within_timeout() {
    let mut queue = BoundedQueue::new(1);
    let result = queue.try_put(1);
    assert!(result.is_ok());
}

#[test]
fn offer_item_exceeds_timeout() {
    let mut queue = BoundedQueue::new(1);
    assert!(queue.try_put(1).is_ok());
    let result = queue.try_put(2);
    assert!(result.is_err());
}

#[test]
fn poll_item_within_timeout() {
    let mut queue = BoundedQueue::new(1);
    assert!(queue.try_put(1).is_ok());
    let item = queue.try_take();
    assert_eq!(item, Some(1));
}

#[test]
fn poll_item_exceeds_timeout() {
    let mut queue = BoundedQueue::<()>::new(1);
    let item = queue.try_take();
    assert_eq!(item, None);
}

#[test]
fn new_queue_is_empty() {
    let queue = BoundedQueue::<u64>::new(3);
    assert_eq!(queue.len(), 0);
    assert_eq!(queue.capacity(), 3);
    assert!(queue.is_empty());
    assert!(!queue.is_full());
}

#[test]
fn fifo_order() {
    let mut queue = BoundedQueue::new(3);
    assert!(queue.try_put(10).is_ok());
    assert!(queue.try_put(20).is_ok());
    assert!(queue.try_put(30).is_ok());
    assert_eq!(queue.try_take(), Some(10));
    assert_eq!(queue.try_take(), Some(20));
    assert_eq!(queue.try_take(), Some(30));
    assert_eq!(queue.try_take(), None);
    assert!(queue.is_empty());
}

#[test]
fn round_trip_returns_the_item() {
    let mut queue = BoundedQueue::new(4);
    assert!(queue.try_put(-7).is_ok());
    assert_eq!(queue.try_take(), Some(-7));
    assert!(queue.try_put(i64::MAX).is_ok());
    assert_eq!(queue.try_take(), Some(i64::MAX));
    assert!(queue.try_put(0).is_ok());
    assert_eq!(queue.try_take(), Some(0));
}

#[test]
fn rejected_put_hands_the_item_back() {
    let mut queue = BoundedQueue::new(2);
    assert!(queue.try_put("a").is_ok());
    assert!(queue.try_put("b").is_ok());
    assert_eq!(queue.try_put("c"), Err("c"));
    assert_eq!(queue.len(), 2);
    assert_eq!(queue.try_take(), Some("a"));
    assert_eq!(queue.try_take(), Some("b"));
    assert_eq!(queue.try_take(), None);
}

#[test]
fn capacity_is_never_exceeded() {
    let mut queue = BoundedQueue::new(2);
    let mut inserted: usize = 0;
    let mut removed: usize = 0;
    let ops: [bool; 12] = [
        true, true, true, false, true, false, false, false, true, true, false, false,
    ];
    for is_put in ops {
        if is_put {
            if queue.try_put(inserted).is_ok() {
                inserted += 1;
            }
        } else if queue.try_take().is_some() {
            removed += 1;
        }
        assert!(queue.len() <= queue.capacity());
    }
    assert_eq!(inserted, removed + queue.len());
}

#[test]
fn concrete_scenario_capacity_one() {
    let mut queue = BoundedQueue::new(1);
    assert!(queue.try_put(1).is_ok());
    assert_eq!(queue.len(), 1);
    assert_eq!(queue.try_put(2), Err(2));
    assert_eq!(queue.len(), 1);
    assert_eq!(queue.try_take(), Some(1));
    assert!(queue.is_empty());
    assert_eq!(queue.try_take(), None);
}

#[test]
fn interleaved_puts_and_takes_keep_order() {
    let mut queue = BoundedQueue::new(2);
    assert!(queue.try_put(1).is_ok());
    assert!(queue.try_put(2).is_ok());
    assert_eq!(queue.try_take(), Some(1));
    assert!(queue.try_put(3).is_ok());
    assert!(queue.is_full());
    assert_eq!(queue.try_take(), Some(2));
    assert_eq!(queue.try_take(), Some(3));
    assert_eq!(queue.try_take(), None);
}
