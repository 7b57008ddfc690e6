use dobot::queue_index::{QueueIndex, QueueTracker};

#[test]
fn waiters_resolve_when_index_reached() {
    let mut t: QueueTracker<char> = QueueTracker::new();
    t.add_waiter(QueueIndex::new(3), 'a');
    t.add_waiter(QueueIndex::new(5), 'b');
    t.add_waiter(QueueIndex::new(7), 'c');
    assert!(t.resolve(QueueIndex::new(1)).is_empty());
    assert_eq!(t.len(), 3);
    assert_eq!(t.resolve(QueueIndex::new(4)), vec!['a']);
    assert_eq!(t.resolve(QueueIndex::new(6)), vec!['b']);
    assert_eq!(t.resolve(QueueIndex::new(8)), vec!['c']);
    assert_eq!(t.len(), 0);
}

#[test]
fn every_reached_waiter_resolves_in_one_poll() {
    let mut t: QueueTracker<u32> = QueueTracker::new();
    for (i, target) in [9u64, 2, 5, 5, 12].iter().enumerate() {
        t.add_waiter(QueueIndex::new(*target), i as u32);
    }
    assert_eq!(t.resolve(QueueIndex::new(5)), vec![1, 2, 3]);
    assert_eq!(t.len(), 2);
    assert_eq!(t.resolve(QueueIndex::new(u64::MAX)), vec![0, 4]);
}

#[test]
fn queue_index_value() {
    assert_eq!(QueueIndex::new(42).value(), 42);
    assert!(QueueIndex::new(3) < QueueIndex::new(4));
}
