use tokio_delayed_queue::{DelayedQueue, PopState, PopStep, PushStep};

#[test]
fn new_queue_is_empty_and_issues_id_one() {
    let mut queue: DelayedQueue<u8> = DelayedQueue::new(3);
    assert_eq!(queue.capacity(), 3);
    assert_eq!(queue.len(), 0);
    assert!(queue.is_empty());
    assert!(!queue.is_full());
    assert!(queue.front().is_none());
    assert_eq!(queue.next_id(), 1);
    let op = queue.pop();
    assert_eq!(op.id(), 1);
    assert_eq!(op.state(), PopState::Init);
    assert!(!op.has_guard());
    assert!(!op.is_done());
    assert_eq!(queue.next_id(), 2);
}

#[test]
fn ids_are_issued_in_order_and_never_zero() {
    let mut queue: DelayedQueue<u8> = DelayedQueue::new(1);
    let mut expected: u64 = 1;
    while expected <= 50 {
        let op = queue.pop();
        assert_ne!(op.id(), 0);
        assert_eq!(op.id(), expected);
        expected += 1;
    }
    assert_eq!(queue.next_id(), 51);
}

#[test]
fn push_sets_due_time_to_now_plus_delay() {
    let mut queue: DelayedQueue<&str> = DelayedQueue::new(2);
    assert_eq!(queue.push("a", 1_000, 250), PushStep::Pushed);
    let front = queue.front().unwrap();
    assert_eq!(front.item, "a");
    assert_eq!(front.pop_time, 1_250);
    assert_eq!(front.reserved, 0);
}

#[test]
fn push_accepts_the_largest_due_time() {
    let mut queue: DelayedQueue<u8> = DelayedQueue::new(2);
    assert_eq!(queue.push(9, u64::MAX - 7, 7), PushStep::Pushed);
    assert_eq!(queue.front().unwrap().pop_time, u64::MAX);
    let mut op = queue.pop();
    assert_eq!(op.poll(&mut queue, u64::MAX - 1), PopStep::WaitDue(u64::MAX));
    assert_eq!(op.poll(&mut queue, u64::MAX), PopStep::Ready(9));
}

#[test]
fn push_on_full_queue_returns_the_item() {
    let mut queue: DelayedQueue<String> = DelayedQueue::new(2);
    assert_eq!(queue.push("a".to_string(), 0, 10), PushStep::Pushed);
    assert!(!queue.is_full());
    assert_eq!(queue.push("b".to_string(), 0, 10), PushStep::Pushed);
    assert!(queue.is_full());
    assert_eq!(queue.push("c".to_string(), 0, 10), PushStep::WaitOccupancy("c".to_string()));
    assert_eq!(queue.len(), 2);
    assert_eq!(queue.front().unwrap().item, "a");
}

#[test]
fn backpressure_lasts_until_a_pop_removes_an_item() {
    let mut queue: DelayedQueue<u32> = DelayedQueue::new(2);
    assert_eq!(queue.push(1, 0, 100), PushStep::Pushed);
    assert_eq!(queue.push(2, 0, 100), PushStep::Pushed);
    assert_eq!(queue.push(3, 0, 100), PushStep::WaitOccupancy(3));

    // Neither a new operation, nor a step that only waits, nor a release
    // makes room.
    let mut op = queue.pop();
    assert_eq!(queue.push(3, 1, 100), PushStep::WaitOccupancy(3));
    assert_eq!(op.poll(&mut queue, 50), PopStep::WaitDue(100));
    assert_eq!(queue.push(3, 50, 100), PushStep::WaitOccupancy(3));
    let mut other = queue.pop();
    assert_eq!(other.poll(&mut queue, 60), PopStep::WaitReservation);
    assert!(!other.release(&mut queue));
    assert_eq!(queue.push(3, 60, 100), PushStep::WaitOccupancy(3));

    // A completed pop does.
    assert_eq!(op.poll(&mut queue, 100), PopStep::Ready(1));
    assert_eq!(queue.push(3, 100, 100), PushStep::Pushed);
    assert!(queue.is_full());
    assert_eq!(queue.push(4, 100, 100), PushStep::WaitOccupancy(4));
}

#[test]
fn queue_of_capacity_zero_is_always_full() {
    let mut queue: DelayedQueue<u8> = DelayedQueue::new(0);
    assert!(queue.is_full());
    assert!(queue.is_empty());
    assert_eq!(queue.push(1, 0, 0), PushStep::WaitOccupancy(1));
    assert_eq!(queue.len(), 0);
    let mut op = queue.pop();
    assert_eq!(op.poll(&mut queue, 0), PopStep::WaitOccupancy);
}

#[test]
fn fifo_delivery_ignores_due_order() {
    let mut queue: DelayedQueue<u32> = DelayedQueue::new(8);
    // Later items are due earlier than the first one.
    assert_eq!(queue.push(10, 0, 500), PushStep::Pushed);
    assert_eq!(queue.push(20, 0, 100), PushStep::Pushed);
    assert_eq!(queue.push(30, 0, 0), PushStep::Pushed);
    assert_eq!(queue.push(40, 0, 300), PushStep::Pushed);

    let mut op = queue.pop();
    // The items behind the front are due, the front is not: nothing leaves.
    assert_eq!(op.poll(&mut queue, 400), PopStep::WaitDue(500));
    assert_eq!(queue.len(), 4);
    assert_eq!(op.poll(&mut queue, 500), PopStep::Ready(10));
    assert!(op.release(&mut queue));

    let mut got: Vec<u32> = Vec::new();
    while !queue.is_empty() {
        let mut op = queue.pop();
        match op.poll(&mut queue, 500) {
            PopStep::Ready(v) => got.push(v),
            other => panic!("unexpected step {:?}", other),
        }
        assert!(!op.release(&mut queue));
    }
    assert_eq!(got, vec![20, 30, 40]);
}

#[test]
fn every_item_is_delivered_exactly_once() {
    let mut queue: DelayedQueue<u32> = DelayedQueue::new(4);
    let mut pushed: Vec<u32> = Vec::new();
    let mut popped: Vec<u32> = Vec::new();
    let mut next: u32 = 0;
    let mut now: u64 = 0;
    while popped.len() < 20 {
        // Fill the queue, then drain two items.
        while !queue.is_full() {
            assert_eq!(queue.push(next, now, 3), PushStep::Pushed);
            pushed.push(next);
            next += 1;
        }
        assert_eq!(queue.push(next, now, 3), PushStep::WaitOccupancy(next));
        let mut taken: u32 = 0;
        while taken < 2 {
            let mut op = queue.pop();
            match op.poll(&mut queue, now) {
                PopStep::Ready(v) => {
                    popped.push(v);
                    taken += 1;
                },
                PopStep::WaitDue(until) => {
                    now = until;
                    assert_eq!(op.poll(&mut queue, now), PopStep::Ready(pushed[popped.len()]));
                    popped.push(pushed[popped.len()]);
                    taken += 1;
                },
                other => panic!("unexpected step {:?}", other),
            }
            op.release(&mut queue);
        }
        assert_eq!(pushed.len(), popped.len() + queue.len());
    }
    assert_eq!(popped[..], pushed[..popped.len()]);
    assert_eq!(popped, (0..20).collect::<Vec<u32>>());
}
