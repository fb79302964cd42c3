use poolwatch::bus::{EventBus, RecvOutcome};
use poolwatch::events::{Event, NewBlock, PendingTransaction};

fn block_event(number: u64) -> Event {
    Event::NewBlock(NewBlock {
        number,
        gas_used: 1,
        gas_limit: 2,
        base_fee_per_gas: 3,
        timestamp: 4,
    })
}

fn block_number(outcome: RecvOutcome) -> u64 {
    match outcome {
        RecvOutcome::Received(Event::NewBlock(b)) => b.number,
        _ => panic!("expected a block event"),
    }
}

// Every subscriber that keeps up receives every published event, in
// publish order, independently of the other subscribers.
#[test]
fn all_events_delivered_in_order_to_every_subscriber() {
    let mut bus = EventBus::new(512);
    let mut first = bus.subscribe();
    let mut second = bus.subscribe();
    for n in 1..=3u64 {
        bus.publish(block_event(n));
    }
    for expected in 1..=3u64 {
        assert_eq!(block_number(first.recv(&bus)), expected);
    }
    assert!(matches!(first.recv(&bus), RecvOutcome::Empty));
    for expected in 1..=3u64 {
        assert_eq!(block_number(second.recv(&bus)), expected);
    }
    assert!(matches!(second.recv(&bus), RecvOutcome::Empty));
}

// A subscriber that falls more than the capacity behind is told how many
// events it lost, then continues with the newest events: a strict
// subsequence, no reordering, no duplication.
#[test]
fn overflowed_subscriber_sees_gap_then_newest() {
    let mut bus = EventBus::new(2);
    let mut slow = bus.subscribe();
    for n in 1..=5u64 {
        bus.publish(block_event(n));
    }
    match slow.recv(&bus) {
        RecvOutcome::Lagged(missed) => assert_eq!(missed, 3),
        _ => panic!("expected a gap report"),
    }
    assert_eq!(block_number(slow.recv(&bus)), 4);
    assert_eq!(block_number(slow.recv(&bus)), 5);
    assert!(matches!(slow.recv(&bus), RecvOutcome::Empty));
}

// A slow subscriber losing events leaves a fast one unaffected.
#[test]
fn slow_subscriber_does_not_disturb_fast_one() {
    let mut bus = EventBus::new(2);
    let mut fast = bus.subscribe();
    let mut slow = bus.subscribe();
    for n in 1..=5u64 {
        bus.publish(block_event(n));
        assert_eq!(block_number(fast.recv(&bus)), n);
    }
    assert!(matches!(slow.recv(&bus), RecvOutcome::Lagged(3)));
    assert!(matches!(fast.recv(&bus), RecvOutcome::Empty));
}

// A subscriber sees only events published after it subscribed.
#[test]
fn subscriber_starts_at_subscription_point() {
    let mut bus = EventBus::new(16);
    bus.publish(block_event(1));
    let mut late = bus.subscribe();
    bus.publish(Event::Transaction(PendingTransaction {
        hash: [7u8; 32],
        max_fee_per_gas: Some(9),
        max_priority_fee_per_gas: None,
    }));
    match late.recv(&bus) {
        RecvOutcome::Received(Event::Transaction(tx)) => {
            assert_eq!(tx.hash, [7u8; 32]);
            assert_eq!(tx.max_fee_per_gas, Some(9));
        },
        _ => panic!("expected the transaction published after subscribing"),
    }
    assert!(matches!(late.recv(&bus), RecvOutcome::Empty));
}
