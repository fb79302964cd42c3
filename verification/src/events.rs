//! The events the pipeline moves: canonical block contexts and pending
//! transactions, and the tagged union the bus carries.

use vstd::prelude::*;

verus! {

/// Canonical record of an observed block: the header fields the fee
/// prediction and the correlator read. A block number of zero together
/// with all-zero gas fields is the sentinel "no block observed yet".
#[derive(Clone, Copy)]
pub struct NewBlock {
    pub number: u64,
    pub gas_used: u64,
    pub gas_limit: u64,
    pub base_fee_per_gas: u64,
    pub timestamp: u64,
}

impl Default for NewBlock {
    /// The sentinel block context: every field zero.
    fn default() -> (r: NewBlock)
        ensures
            r.number == 0,
            r.gas_used == 0,
            r.gas_limit == 0,
            r.base_fee_per_gas == 0,
            r.timestamp == 0,
    {
        NewBlock { number: 0, gas_used: 0, gas_limit: 0, base_fee_per_gas: 0, timestamp: 0 }
    }
}

/// The fields of a pending transaction the pipeline reads: its hash and
/// its fee caps. A transaction without a fee cap bids zero.
#[derive(Clone, Copy)]
pub struct PendingTransaction {
    pub hash: [u8; 32],
    pub max_fee_per_gas: Option<u128>,
    pub max_priority_fee_per_gas: Option<u128>,
}

/// An event on the pipeline bus: a newly observed block context, or a
/// pending transaction resolved from the mempool.
#[derive(Clone, Copy)]
pub enum Event {
    NewBlock(NewBlock),
    Transaction(PendingTransaction),
}

/// The fee a pending transaction bids per unit of gas: its fee cap, or
/// zero when it carries none.
pub open spec fn tx_fee_cap(tx: PendingTransaction) -> u128 {
    match tx.max_fee_per_gas {
        Some(f) => f,
        None => 0,
    }
}

} // verus!
