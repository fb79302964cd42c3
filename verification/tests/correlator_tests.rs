use poolwatch::correlator::Correlator;
use poolwatch::events::{Event, NewBlock, PendingTransaction};

fn tx(max_fee: Option<u128>) -> PendingTransaction {
    PendingTransaction {
        hash: [1u8; 32],
        max_fee_per_gas: max_fee,
        max_priority_fee_per_gas: None,
    }
}

fn at_target_block(number: u64, base_fee: u64) -> NewBlock {
    NewBlock {
        number,
        gas_used: 15_000_000,
        gas_limit: 30_000_000,
        base_fee_per_gas: base_fee,
        timestamp: 0,
    }
}

// Transactions are ignored until at least one block has been observed.
#[test]
fn transactions_ignored_before_first_block() {
    let mut correlator = Correlator::new();
    assert!(correlator.on_event(Event::Transaction(tx(Some(u128::MAX)))).is_none());
    assert!(correlator.on_event(Event::Transaction(tx(None))).is_none());
}

// With a block at target and base fee 100, a fee cap of 99 is never
// forwarded and a fee cap of 150 always is; a transaction without a fee
// cap bids zero.
#[test]
fn fee_cap_decides_forwarding() {
    let mut correlator = Correlator::new();
    assert!(correlator.on_event(Event::NewBlock(at_target_block(42, 100))).is_none());
    assert!(correlator.on_event(Event::Transaction(tx(Some(99)))).is_none());
    let request = correlator
        .on_event(Event::Transaction(tx(Some(150))))
        .expect("a fee cap well above the prediction is forwarded");
    assert_eq!(request.block_number, 42);
    assert_eq!(request.tx.max_fee_per_gas, Some(150));
    assert!(correlator.on_event(Event::Transaction(tx(None))).is_none());
}

// A newer block replaces the held context wholesale: the decision is made
// against the most recently processed block.
#[test]
fn newest_block_context_wins() {
    let mut correlator = Correlator::new();
    correlator.on_event(Event::NewBlock(at_target_block(1, 100)));
    correlator.on_event(Event::NewBlock(at_target_block(2, 1000)));
    // 150 clears the first block's prediction but not the second's.
    assert!(correlator.on_event(Event::Transaction(tx(Some(150)))).is_none());
    let request = correlator
        .on_event(Event::Transaction(tx(Some(2000))))
        .expect("a fee cap above the newest prediction is forwarded");
    assert_eq!(request.block_number, 2);
}
