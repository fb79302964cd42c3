//! The correlator state machine: the single consumer of the event bus. It
//! holds the most recently observed block context and decides, for each
//! pending transaction, whether the transaction clears the includability
//! bar and so deserves a simulated execution.

use vstd::prelude::*;
use crate::events::{Event, NewBlock, PendingTransaction, tx_fee_cap};
use crate::fee::{calculate_next_block_base_fee, predicted_base_fee};

verus! {

/// A request to analyze one pending transaction against the chain state at
/// the given block: what the correlator hands on when a transaction clears
/// the includability bar.
#[derive(Clone, Copy)]
pub struct AnalyzeRequest {
    pub tx: PendingTransaction,
    pub block_number: u64,
}

/// The correlator's whole state: the latest block context it has consumed,
/// or nothing before the first block arrives.
pub struct Correlator {
    current_block: Option<NewBlock>,
}

impl Correlator {
    /// The most recently consumed block context, if any block has been
    /// observed yet.
    pub closed spec fn current(&self) -> Option<NewBlock> {
        self.current_block
    }

    /// A correlator that has observed no block yet.
    pub fn new() -> (r: Correlator)
        ensures
            r.current() is None,
    {
        Correlator { current_block: None }
    }

    /// Consume one bus event.
    ///
    /// A new block context replaces the held one wholesale (last received
    /// wins). A transaction is ignored while no block has been observed;
    /// otherwise the next base fee is predicted from the held block and the
    /// transaction is handed on for analysis exactly when its fee cap
    /// exceeds the prediction. The prediction carries a random jitter of at
    /// most eight fee units, so the decision is pinned outside that margin:
    /// a fee cap at most the deterministic prediction is never forwarded,
    /// one more than eight units above it always is.
    pub fn on_event(&mut self, event: Event) -> (r: Option<AnalyzeRequest>)
        ensures
            match event {
                Event::NewBlock(b) => {
                    &&& final(self).current() == Some(b)
                    &&& r is None
                },
                Event::Transaction(tx) => {
                    &&& final(self).current() == old(self).current()
                    &&& match old(self).current() {
                        None => r is None,
                        Some(b) => {
                            let base = predicted_base_fee(b.gas_used, b.gas_limit, b.base_fee_per_gas);
                            &&& (r is Some ==> tx_fee_cap(tx) > base)
                            &&& (tx_fee_cap(tx) > base + 8 ==> r is Some)
                            &&& (tx_fee_cap(tx) <= base ==> r is None)
                            &&& (match r {
                                Some(req) => req.tx == tx && req.block_number == b.number,
                                None => true,
                            })
                        },
                    }
                },
            },
    {
        match event {
            Event::NewBlock(b) => {
                self.current_block = Some(b);
                None
            },
            Event::Transaction(tx) => {
                match &self.current_block {
                    None => None,
                    Some(b) => {
                        let predicted = calculate_next_block_base_fee(
                            b.gas_used,
                            b.gas_limit,
                            b.base_fee_per_gas,
                        );
                        let cap: u128 = match tx.max_fee_per_gas {
                            Some(f) => f,
                            None => 0,
                        };
                        if cap > predicted {
                            Some(AnalyzeRequest { tx, block_number: b.number })
                        } else {
                            None
                        }
                    },
                }
            },
        }
    }
}

} // verus!
