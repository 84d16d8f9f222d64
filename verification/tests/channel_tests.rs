use bounded_channel::channel::ChannelState;
use bounded_channel::channel::RecvStep;
use bounded_channel::channel::SendStep;

#[test]
fn queue_never_exceeds_capacity() {
    let mut c: ChannelState<u64> = ChannelState::new(3);
    let mut waiter: u64 = 0;
    for round in 0..50u64 {
        let step = c.send(waiter, round);
        waiter += 1;
        assert!(c.len() <= c.capacity());
        match step {
            SendStep::Sent => {}
            SendStep::Suspended => {
                // Full: free one slot, which the oldest pending sender gets.
                match c.recv(waiter) {
                    RecvStep::Item { woken_sender, .. } => {
                        assert!(woken_sender.is_some());
                    }
                    _ => panic!("an item was queued"),
                }
                waiter += 1;
                assert!(c.len() <= c.capacity());
            }
            _ => panic!("open channel with no pending receiver"),
        }
    }
}

#[test]
fn send_on_open_channel_with_room_is_queued() {
    let mut c: ChannelState<String> = ChannelState::new(2);
    assert_eq!(c.send(0, "x".to_string()), SendStep::Sent);
    assert_eq!(c.send(1, "y".to_string()), SendStep::Sent);
    assert_eq!(c.len(), 2);
    assert_eq!(c.send(2, "z".to_string()), SendStep::Suspended);
    assert_eq!(c.len(), 2);
}

#[test]
fn capacity_one_blocked_send_completes_after_recv() {
    // capacity = 1: send "a" succeeds, send "b" suspends; recv returns "a"
    // and unblocks the suspended send of "b"; the next recv returns "b".
    let mut c: ChannelState<String> = ChannelState::new(1);
    assert_eq!(c.send(100, "a".to_string()), SendStep::Sent);
    assert_eq!(c.send(101, "b".to_string()), SendStep::Suspended);
    match c.recv(200) {
        RecvStep::Item { item, woken_sender } => {
            assert_eq!(item, "a");
            assert_eq!(woken_sender, Some(101));
        }
        _ => panic!("\"a\" was queued"),
    }
    match c.recv(201) {
        RecvStep::Item { item, woken_sender } => {
            assert_eq!(item, "b");
            assert_eq!(woken_sender, None);
        }
        _ => panic!("\"b\" was queued by the unblocked send"),
    }
}

#[test]
fn close_with_three_queued_yields_exactly_three() {
    // capacity = 10, close with 3 items queued: 3 receives succeed in FIFO
    // order, the 4th fails with Closed.
    let mut c: ChannelState<String> = ChannelState::new(10);
    assert_eq!(c.send(0, "one".to_string()), SendStep::Sent);
    assert_eq!(c.send(1, "two".to_string()), SendStep::Sent);
    assert_eq!(c.send(2, "three".to_string()), SendStep::Sent);
    let eff = c.close();
    assert!(eff.failed_sends.is_empty());
    assert!(eff.woken_receivers.is_empty());
    for expected in ["one", "two", "three"] {
        match c.recv(7) {
            RecvStep::Item { item, woken_sender } => {
                assert_eq!(item, expected);
                assert_eq!(woken_sender, None);
            }
            _ => panic!("items queued before closing are still delivered"),
        }
    }
    assert_eq!(c.recv(8), RecvStep::Closed);
    assert_eq!(c.recv(9), RecvStep::Closed);
}

#[test]
fn send_after_close_fails_and_queue_is_unchanged() {
    let mut c: ChannelState<u64> = ChannelState::new(4);
    assert_eq!(c.send(0, 5), SendStep::Sent);
    c.close();
    let len_before = c.len();
    assert_eq!(c.send(1, 6), SendStep::Closed { item: 6 });
    assert_eq!(c.len(), len_before);
    assert_eq!(c.send(2, 7), SendStep::Closed { item: 7 });
    assert_eq!(c.len(), len_before);
}

#[test]
fn close_is_idempotent() {
    let mut c: ChannelState<u64> = ChannelState::new(2);
    c.send(0, 1);
    let first = c.close();
    assert!(first.failed_sends.is_empty());
    let second = c.close();
    assert!(second.failed_sends.is_empty());
    assert!(second.woken_receivers.is_empty());
    assert!(c.is_closed());
    assert_eq!(c.len(), 1);
}

#[test]
fn close_wakes_pending_senders_with_their_items() {
    let mut c: ChannelState<String> = ChannelState::new(1);
    assert_eq!(c.send(10, "kept".to_string()), SendStep::Sent);
    assert_eq!(c.send(11, "lost1".to_string()), SendStep::Suspended);
    assert_eq!(c.send(12, "lost2".to_string()), SendStep::Suspended);
    let eff = c.close();
    assert_eq!(
        eff.failed_sends,
        vec![(11, "lost1".to_string()), (12, "lost2".to_string())]
    );
    assert!(eff.woken_receivers.is_empty());
    // The queued item is still delivered; the failed senders' items never were.
    match c.recv(0) {
        RecvStep::Item { item, .. } => assert_eq!(item, "kept"),
        _ => panic!("one item was queued"),
    }
    assert_eq!(c.recv(1), RecvStep::Closed);
}

#[test]
fn close_wakes_pending_receivers() {
    let mut c: ChannelState<u64> = ChannelState::new(2);
    assert_eq!(c.recv(21), RecvStep::Suspended);
    assert_eq!(c.recv(22), RecvStep::Suspended);
    let eff = c.close();
    assert_eq!(eff.woken_receivers, vec![21, 22]);
    assert!(eff.failed_sends.is_empty());
    assert_eq!(c.recv(23), RecvStep::Closed);
}

#[test]
fn send_hands_off_to_pending_receiver() {
    let mut c: ChannelState<String> = ChannelState::new(5);
    assert_eq!(c.recv(31), RecvStep::Suspended);
    assert_eq!(c.recv(32), RecvStep::Suspended);
    // The first-suspended receiver gets the item; the queue is bypassed.
    assert_eq!(
        c.send(0, "direct".to_string()),
        SendStep::Delivered { receiver: 31, item: "direct".to_string() }
    );
    assert_eq!(c.len(), 0);
    assert_eq!(
        c.send(1, "next".to_string()),
        SendStep::Delivered { receiver: 32, item: "next".to_string() }
    );
    // No receiver pending any more: the queue is used again.
    assert_eq!(c.send(2, "queued".to_string()), SendStep::Sent);
    assert_eq!(c.len(), 1);
}

#[test]
fn cancel_send_returns_the_item() {
    let mut c: ChannelState<String> = ChannelState::new(1);
    assert_eq!(c.send(0, "fills".to_string()), SendStep::Sent);
    assert_eq!(c.send(40, "waiting".to_string()), SendStep::Suspended);
    assert_eq!(c.cancel_send(40), Some("waiting".to_string()));
    assert_eq!(c.cancel_send(40), None);
    assert_eq!(c.cancel_send(99), None);
    // The cancelled request is gone: a recv wakes no sender.
    match c.recv(0) {
        RecvStep::Item { item, woken_sender } => {
            assert_eq!(item, "fills");
            assert_eq!(woken_sender, None);
        }
        _ => panic!("one item was queued"),
    }
}

#[test]
fn cancel_recv_deregisters_the_waiter() {
    let mut c: ChannelState<u64> = ChannelState::new(2);
    assert_eq!(c.recv(50), RecvStep::Suspended);
    assert_eq!(c.recv(51), RecvStep::Suspended);
    assert!(c.cancel_recv(50));
    assert!(!c.cancel_recv(50));
    assert!(!c.cancel_recv(99));
    // The cancelled waiter no longer receives anything: the next send goes
    // to the remaining one.
    assert_eq!(c.send(0, 9), SendStep::Delivered { receiver: 51, item: 9 });
}

#[test]
fn clone_and_drop_track_handle_counts() {
    let mut c: ChannelState<u64> = ChannelState::new(1);
    assert_eq!(c.sender_count(), 1);
    assert_eq!(c.receiver_count(), 1);
    c.clone_sender();
    c.clone_sender();
    c.clone_receiver();
    assert_eq!(c.sender_count(), 3);
    assert_eq!(c.receiver_count(), 2);
    assert!(c.drop_sender().is_none());
    assert!(c.drop_sender().is_none());
    assert_eq!(c.sender_count(), 1);
    assert!(!c.is_closed());
}

#[test]
fn dropping_last_sender_closes_the_channel() {
    let mut c: ChannelState<u64> = ChannelState::new(4);
    assert_eq!(c.send(0, 1), SendStep::Sent);
    assert_eq!(c.recv(60), RecvStep::Item { item: 1, woken_sender: None });
    assert_eq!(c.recv(61), RecvStep::Suspended);
    let eff = c.drop_sender().expect("last sender closes");
    assert_eq!(eff.woken_receivers, vec![61]);
    assert!(c.is_closed());
    assert_eq!(c.recv(62), RecvStep::Closed);
    assert_eq!(c.send(1, 2), SendStep::Closed { item: 2 });
}

#[test]
fn dropping_last_receiver_closes_the_channel() {
    let mut c: ChannelState<u64> = ChannelState::new(4);
    assert_eq!(c.send(0, 1), SendStep::Sent);
    c.clone_receiver();
    assert!(c.drop_receiver().is_none());
    assert!(!c.is_closed());
    assert!(c.drop_receiver().is_some());
    assert!(c.is_closed());
    assert_eq!(c.send(1, 2), SendStep::Closed { item: 2 });
}

#[test]
fn drain_returns_queued_items_in_order() {
    let mut c: ChannelState<u64> = ChannelState::new(8);
    for i in 0..5u64 {
        assert_eq!(c.send(i, i * 10), SendStep::Sent);
    }
    c.close();
    let items = c.drain();
    assert_eq!(items, vec![0, 10, 20, 30, 40]);
    assert_eq!(c.len(), 0);
    assert_eq!(c.recv(0), RecvStep::Closed);
}

#[test]
fn every_accepted_item_is_received_exactly_once() {
    // One producer, several consumers taking turns; the consumers'
    // counts must add up to the number of items accepted, each item
    // appearing exactly once.
    const M: u64 = 100_000;
    const P: usize = 1_000;
    let mut c: ChannelState<u64> = ChannelState::new(16);
    let mut counts = vec![0usize; P];
    let mut seen = vec![false; M as usize];
    let mut next: u64 = 0;
    let mut consumer: usize = 0;
    let mut waiter: u64 = 0;
    while next < M {
        let step = c.send(waiter, next);
        waiter += 1;
        match step {
            SendStep::Sent => next += 1,
            SendStep::Delivered { item, .. } => {
                counts[consumer] += 1;
                consumer = (consumer + 1) % P;
                assert!(!seen[item as usize], "item delivered twice");
                seen[item as usize] = true;
                next += 1;
            }
            SendStep::Suspended => {
                // Full: a consumer takes its turn and frees the slot for
                // the suspended send.
                match c.recv(waiter) {
                    RecvStep::Item { item, woken_sender } => {
                        assert_eq!(woken_sender, Some(waiter - 1));
                        counts[consumer] += 1;
                        consumer = (consumer + 1) % P;
                        assert!(!seen[item as usize], "item delivered twice");
                        seen[item as usize] = true;
                    }
                    _ => panic!("the queue was full"),
                }
                waiter += 1;
                next += 1;
            }
            SendStep::Closed { .. } => panic!("channel is open"),
        }
    }
    c.close();
    loop {
        match c.recv(waiter) {
            RecvStep::Item { item, .. } => {
                counts[consumer] += 1;
                consumer = (consumer + 1) % P;
                assert!(!seen[item as usize], "item delivered twice");
                seen[item as usize] = true;
            }
            RecvStep::Closed => break,
            RecvStep::Suspended => panic!("channel is closed"),
        }
        waiter += 1;
    }
    let total: usize = counts.iter().sum();
    assert_eq!(total, M as usize);
    assert!(seen.iter().all(|&s| s));
}

#[test]
fn single_item_single_consumer_round_trip() {
    let mut c: ChannelState<String> = ChannelState::new(1);
    assert_eq!(c.send(0, "only".to_string()), SendStep::Sent);
    c.close();
    match c.recv(1) {
        RecvStep::Item { item, .. } => assert_eq!(item, "only"),
        _ => panic!("the single item is delivered"),
    }
    assert_eq!(c.recv(2), RecvStep::Closed);
}

#[test]
fn recv_on_open_empty_channel_suspends() {
    let mut c: ChannelState<u64> = ChannelState::new(3);
    assert_eq!(c.recv(70), RecvStep::Suspended);
    assert_eq!(c.len(), 0);
    assert!(!c.is_closed());
}

#[test]
fn capacity_accessors_report_construction_values() {
    let c: ChannelState<u64> = ChannelState::new(17);
    assert_eq!(c.capacity(), 17);
    assert_eq!(c.len(), 0);
    assert!(c.is_empty());
    assert!(!c.is_closed());
}
