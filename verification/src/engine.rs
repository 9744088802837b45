//! The ingest and search engine: it owns the candidate pool, consumes line
//! and query events one at a time, drives the fuzzy matcher, and says what to
//! emit downstream. Receiving events and sending results over channels is the
//! caller's business; every decision here is pure and verified.
//!
//! Searching is throttled under high-volume input: a ranking refresh goes out
//! only when a full batch of lines has been ingested since the last one, not
//! on every line.

use crate::events::{Event, Prompt, Ranking};
use crate::fuzzy;
use crate::fuzzy::{matches_view, rank_all};
use crate::pool::Pool;
use crate::BUFFER_LIMIT;
use crate::POOL_LIMIT;
use vstd::prelude::*;

verus! {

/// What one handled event asks the caller to do: an event to send downstream,
/// whether to broadcast the pool to listeners, and whether to stop the loop.
pub struct EngineStep {
    pub emit: Option<Event>,
    pub publish_pool: bool,
    pub stop: bool,
}

/// The engine: the candidate pool, the count of lines ingested since the last
/// ranking refresh, and the current query.
pub struct Engine {
    pool: Pool,
    buffer_count: usize,
    query: String,
}

/// A ranking refresh over the given candidates and the current query: the
/// full ranking and the candidate count at the time of ranking.
pub open spec fn is_refresh(ev: Event, query: String, entries: Seq<String>) -> bool {
    &&& ev matches Event::Flush(r)
    &&& ev matches Event::Flush(r) ==> matches_view(r.matches@) == rank_all(query@, entries)
        && r.total == entries.len()
}

/// What handling one ingested line does: the pool admits it (with a batched
/// eviction when the overflow buffer fills), the pool is broadcast whenever
/// it changed, and once a full batch of lines has arrived since the last
/// refresh, a new ranking of the current pool against the current query goes
/// out.
pub open spec fn new_line_post(pre: Engine, post: Engine, line: String, step: EngineStep) -> bool {
    let after = pre.pool_spec().spec_ingest(line);
    let direct = pre.pool_spec().entries_view().len() < pre.pool_spec().pool_limit_spec();
    let flushed = !direct && pre.pool_spec().overflow_view().len() + 1
        == pre.pool_spec().buffer_limit_spec();
    let counted = if direct {
        pre.buffer_count_spec() + 1
    } else if flushed {
        pre.pool_spec().buffer_limit_spec()
    } else {
        pre.buffer_count_spec()
    };
    let refresh = counted >= pre.pool_spec().buffer_limit_spec();
    &&& post.pool_spec().entries_view() == after.0
    &&& post.pool_spec().overflow_view() == after.1
    &&& post.pool_spec().pool_limit_spec() == pre.pool_spec().pool_limit_spec()
    &&& post.pool_spec().buffer_limit_spec() == pre.pool_spec().buffer_limit_spec()
    &&& post.query_spec() == pre.query_spec()
    &&& post.buffer_count_spec() == if refresh {
        0
    } else {
        counted
    }
    &&& step.publish_pool == (direct || flushed)
    &&& !step.stop
    &&& (step.emit is Some <==> refresh)
    &&& (step.emit is Some ==> is_refresh(step.emit->Some_0, pre.query_spec(), after.0))
}

/// What handling end of input does: the partial overflow batch is flushed
/// into the pool, one final ranking of the completed pool goes out, and the
/// completed pool is broadcast.
pub open spec fn eof_post(pre: Engine, post: Engine, step: EngineStep) -> bool {
    let drained = pre.pool_spec().entries_view().skip(
        pre.pool_spec().overflow_view().len() as int,
    ) + pre.pool_spec().overflow_view();
    &&& post.pool_spec().entries_view() == drained
    &&& post.pool_spec().overflow_view() == Seq::<String>::empty()
    &&& post.pool_spec().pool_limit_spec() == pre.pool_spec().pool_limit_spec()
    &&& post.pool_spec().buffer_limit_spec() == pre.pool_spec().buffer_limit_spec()
    &&& post.query_spec() == pre.query_spec()
    &&& post.buffer_count_spec() == pre.buffer_count_spec()
    &&& step.publish_pool
    &&& !step.stop
    &&& step.emit is Some
    &&& is_refresh(step.emit->Some_0, pre.query_spec(), drained)
}

/// What handling a query submission does: the query is replaced, the current
/// pool is ranked against it, and the result goes out under the submission's
/// marker.
pub open spec fn search_post(pre: Engine, post: Engine, prompt: Prompt, step: EngineStep) -> bool {
    &&& post.pool_spec() == pre.pool_spec()
    &&& post.query_spec() == prompt.text
    &&& post.buffer_count_spec() == pre.buffer_count_spec()
    &&& !step.publish_pool
    &&& !step.stop
    &&& step.emit is Some
    &&& step.emit->Some_0 matches Event::SearchDone(r, marker) ==> marker == prompt.marker
        && matches_view(r.matches@) == rank_all(prompt.text@, pre.pool_spec().entries_view())
        && r.total == pre.pool_spec().entries_view().len()
    &&& step.emit->Some_0 matches Event::SearchDone(r, marker)
}

impl Engine {
    /// The candidate pool the engine owns.
    pub closed spec fn pool_spec(self) -> Pool {
        self.pool
    }

    /// Lines ingested since the last ranking refresh.
    pub closed spec fn buffer_count_spec(self) -> nat {
        self.buffer_count as nat
    }

    /// The query the pool is currently ranked against.
    pub closed spec fn query_spec(self) -> String {
        self.query
    }

    /// Between events the pool is well formed, its overflow buffer is below a
    /// full batch, and so is the refresh counter.
    pub open spec fn wf(self) -> bool {
        &&& self.pool_spec().wf()
        &&& self.pool_spec().overflow_view().len() < self.pool_spec().buffer_limit_spec()
        &&& self.buffer_count_spec() < self.pool_spec().buffer_limit_spec()
    }

    /// An engine over an empty pool with the given bounds, an empty query and
    /// nothing counted toward the next refresh.
    pub fn new(pool_limit: usize, buffer_limit: usize) -> (e: Engine)
        requires
            0 < buffer_limit <= pool_limit,
        ensures
            e.wf(),
            e.pool_spec().entries_view() == Seq::<String>::empty(),
            e.pool_spec().overflow_view() == Seq::<String>::empty(),
            e.pool_spec().pool_limit_spec() == pool_limit,
            e.pool_spec().buffer_limit_spec() == buffer_limit,
            e.buffer_count_spec() == 0,
            e.query_spec()@ == Seq::<char>::empty(),
    {
        Engine { pool: Pool::new(pool_limit, buffer_limit), buffer_count: 0, query: String::new() }
    }

    /// An engine with the crate's default bounds.
    pub fn with_defaults() -> (e: Engine)
        ensures
            e.wf(),
            e.pool_spec().entries_view() == Seq::<String>::empty(),
            e.pool_spec().overflow_view() == Seq::<String>::empty(),
            e.pool_spec().pool_limit_spec() == POOL_LIMIT,
            e.pool_spec().buffer_limit_spec() == BUFFER_LIMIT,
            e.buffer_count_spec() == 0,
            e.query_spec()@ == Seq::<char>::empty(),
    {
        Engine::new(POOL_LIMIT, BUFFER_LIMIT)
    }

    /// Handle one event to completion: ingest a line, flush at end of input,
    /// rank on a query submission, stop on a confirmation or termination, and
    /// ignore anything unrecognized.
    pub fn handle(&mut self, ev: Event) -> (step: EngineStep)
        requires
            old(self).wf(),
        ensures
            final(self).wf(),
            match ev {
                Event::NewLine(line) => new_line_post(*old(self), *final(self), line, step),
                Event::EOF => eof_post(*old(self), *final(self), step),
                Event::Search(p) => search_post(*old(self), *final(self), p, step),
                Event::Done | Event::Exit => *final(self) == *old(self) && step.emit is None
                    && !step.publish_pool && step.stop,
                _ => *final(self) == *old(self) && step.emit is None && !step.publish_pool
                    && !step.stop,
            },
    {
        match ev {
            Event::NewLine(line) => {
                let direct = self.pool.push(line);
                let flushed = self.pool.flush_if_full();
                if direct {
                    self.buffer_count = self.buffer_count + 1;
                } else if flushed {
                    self.buffer_count = self.pool.buffer_limit();
                }
                let publish = direct || flushed;
                let mut emit: Option<Event> = None;
                if self.buffer_count >= self.pool.buffer_limit() {
                    self.buffer_count = 0;
                    let matches = fuzzy::search(self.query.as_str(), self.pool.snapshot_for_read());
                    let total = self.pool.len();
                    emit = Some(Event::Flush(Ranking { matches, total }));
                }
                EngineStep { emit, publish_pool: publish, stop: false }
            },
            Event::EOF => {
                self.pool.drain_remaining();
                let matches = fuzzy::search(self.query.as_str(), self.pool.snapshot_for_read());
                let total = self.pool.len();
                EngineStep {
                    emit: Some(Event::Flush(Ranking { matches, total })),
                    publish_pool: true,
                    stop: false,
                }
            },
            Event::Search(p) => {
                let Prompt { text, marker } = p;
                self.query = text;
                let matches = fuzzy::search(self.query.as_str(), self.pool.snapshot_for_read());
                let total = self.pool.len();
                EngineStep {
                    emit: Some(Event::SearchDone(Ranking { matches, total }, marker)),
                    publish_pool: false,
                    stop: false,
                }
            },
            Event::Done => EngineStep { emit: None, publish_pool: false, stop: true },
            Event::Exit => EngineStep { emit: None, publish_pool: false, stop: true },
            _ => EngineStep { emit: None, publish_pool: false, stop: false },
        }
    }

    /// A read-only view of the retained candidates, for broadcasting.
    pub fn snapshot(&self) -> (r: &Vec<String>)
        ensures
            r@ == self.pool_spec().entries_view(),
    {
        self.pool.snapshot_for_read()
    }

    /// How many candidates the pool currently retains.
    pub fn candidate_count(&self) -> (n: usize)
        ensures
            n == self.pool_spec().entries_view().len(),
    {
        self.pool.len()
    }
}

} // verus!
