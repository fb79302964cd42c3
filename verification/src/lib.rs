//! A verified core for a mempool-to-pool correlation pipeline.
//!
//! The library contains the logic of the pipeline: predicting the next
//! block's base fee, a bounded broadcast bus for pipeline events, the
//! correlator state machine that decides which pending transactions are
//! plausible next-block candidates, a registry of liquidity pools, and the
//! analyzer that matches a simulated state diff against that registry.
//! Network I/O (block and transaction subscriptions, simulation requests)
//! stays outside: callers hand the library plain values.

pub mod bus;
pub mod bytes;
pub mod correlator;
pub mod analyzer;
pub mod events;
pub mod fee;
pub mod registry;
