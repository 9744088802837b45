//! Interactive line fuzzy finder: a bounded candidate pool with batched FIFO
//! eviction, a subsequence fuzzy matcher, an ingest/search engine, a result
//! reconciler guarding against stale rankings, and the UI state machine.
//!
//! The crate holds the pipeline's logic; reading stdin, the terminal and the
//! screen writer live outside it and talk to these types through plain values.

pub mod engine;
pub mod events;
pub mod fuzzy;
pub mod pool;
pub mod reconcile;
pub mod state;

use vstd::prelude::*;

verus! {

/// Upper bound on how many candidate lines the pool retains.
pub const POOL_LIMIT: usize = 50000;

/// How many lines gather in the overflow buffer before a batched eviction,
/// and how many ingested lines pass between two search refreshes.
pub const BUFFER_LIMIT: usize = 5000;

} // verus!
