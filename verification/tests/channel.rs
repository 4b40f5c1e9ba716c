use geyser_neon::channel::{DequeueResult, EnqueueResult, IngestionChannel};

#[test]
fn capacity_one_second_enqueue_waits_until_room() {
    // Scenario: queue capacity 1, consumer paused. The second enqueue is
    // told to wait (Full), nothing is dropped; once the consumer dequeues,
    // the same event is accepted.
    let mut c: IngestionChannel<u64> = IngestionChannel::new(1);
    assert!(matches!(c.enqueue(10), EnqueueResult::Accepted));
    let second = c.enqueue(20);
    let v = match second {
        EnqueueResult::Full(v) => v,
        _ => panic!("a full queue must hand the event back to wait"),
    };
    assert_eq!(v, 20);
    assert_eq!(c.len(), 1);
    assert!(matches!(c.dequeue(), DequeueResult::Item(10)));
    assert!(matches!(c.enqueue(v), EnqueueResult::Accepted));
    assert!(matches!(c.dequeue(), DequeueResult::Item(20)));
}

#[test]
fn fifo_order_is_kept() {
    let mut c: IngestionChannel<u64> = IngestionChannel::new(10);
    for i in 0..10u64 {
        assert!(matches!(c.enqueue(i), EnqueueResult::Accepted));
    }
    for i in 0..10u64 {
        match c.dequeue() {
            DequeueResult::Item(v) => assert_eq!(v, i),
            _ => panic!("expected an item"),
        }
    }
    assert!(matches!(c.dequeue(), DequeueResult::Empty));
}

#[test]
fn close_drains_then_disconnects() {
    let mut c: IngestionChannel<u64> = IngestionChannel::new(4);
    assert!(matches!(c.enqueue(1), EnqueueResult::Accepted));
    assert!(matches!(c.enqueue(2), EnqueueResult::Accepted));
    c.close();
    // New events are refused fast, handed back.
    match c.enqueue(3) {
        EnqueueResult::Closed(v) => assert_eq!(v, 3),
        _ => panic!("a closed queue must refuse new events"),
    }
    // Already-queued events still drain in order, then the closed signal.
    assert!(matches!(c.dequeue(), DequeueResult::Item(1)));
    assert!(matches!(c.dequeue(), DequeueResult::Item(2)));
    assert!(matches!(c.dequeue(), DequeueResult::Disconnected));
    assert!(matches!(c.dequeue(), DequeueResult::Disconnected));
}

#[test]
fn empty_open_channel_reports_empty_not_disconnected() {
    let mut c: IngestionChannel<String> = IngestionChannel::new(2);
    assert!(matches!(c.dequeue(), DequeueResult::Empty));
    assert!(!c.is_closed());
    assert_eq!(c.capacity(), 2);
}
