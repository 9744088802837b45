//! The event vocabulary of the pipeline: what the engine consumes and emits,
//! and what drives the UI state machine. Unrecognized events are ignored by
//! each consumer, so the engine and the conveyor share one closed set.

use crate::fuzzy::Match;
use vstd::prelude::*;

verus! {

/// A submitted query: its text and the monotonic submission marker saying
/// when it was issued. The marker orders results, not just content.
pub struct Prompt {
    pub text: String,
    pub marker: u64,
}

/// One ranked result: the matches in ranking order, and the total number of
/// candidates in the pool at the time of ranking.
pub struct Ranking {
    pub matches: Vec<Match>,
    pub total: usize,
}

pub enum Event {
    /// One ingested candidate line.
    NewLine(String),
    /// The input stream is exhausted.
    EOF,
    /// The user edited the query text (UI-facing).
    Query(String),
    /// A query submission to be ranked.
    Search(Prompt),
    /// A periodic batched re-rank result emitted during ingestion.
    Flush(Ranking),
    /// The result of an explicit query submission, with its marker.
    SearchDone(Ranking, u64),
    /// A reconciled ranked result delivered to the UI.
    Matches(Ranking),
    /// Move the selection cursor up.
    Up,
    /// Move the selection cursor down.
    Down,
    /// The user confirmed a selection.
    Done,
    /// Terminate without a selection.
    Exit,
}

} // verus!
