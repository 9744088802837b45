//! The candidate pool: a bounded store of ingested lines with an overflow
//! buffer and batched FIFO eviction.
//!
//! While the pool holds fewer than `pool_limit` lines, a pushed line goes
//! straight in. Once the pool is full, lines gather in the overflow buffer;
//! when that buffer holds `buffer_limit` lines, one batch operation evicts the
//! oldest `buffer_limit` pool entries and appends the whole buffer, keeping
//! the pool at `pool_limit`. At end of input a partial buffer is flushed once
//! by the same drop-oldest-then-append rule, sized to the partial batch.

use vstd::prelude::*;

verus! {

/// Bounded store of candidate lines plus its transient overflow buffer.
pub struct Pool {
    entries: Vec<String>,
    overflow: Vec<String>,
    pool_limit: usize,
    buffer_limit: usize,
}

impl Pool {
    /// The retained candidates, oldest first.
    pub closed spec fn entries_view(self) -> Seq<String> {
        self.entries@
    }

    /// The lines waiting in the overflow buffer, oldest first.
    pub closed spec fn overflow_view(self) -> Seq<String> {
        self.overflow@
    }

    /// Most lines the pool retains.
    pub closed spec fn pool_limit_spec(self) -> nat {
        self.pool_limit as nat
    }

    /// Size of one eviction batch.
    pub closed spec fn buffer_limit_spec(self) -> nat {
        self.buffer_limit as nat
    }

    /// Well-formedness: the pool never outgrows its limit, the buffer never
    /// outgrows one batch, and lines overflow only while the pool is full.
    pub open spec fn wf(self) -> bool {
        &&& 0 < self.buffer_limit_spec() <= self.pool_limit_spec() <= usize::MAX
        &&& self.entries_view().len() <= self.pool_limit_spec()
        &&& self.overflow_view().len() <= self.buffer_limit_spec()
        &&& self.overflow_view().len() > 0 ==> self.entries_view().len() == self.pool_limit_spec()
    }

    /// The pool's state after admitting one line and flushing a full batch:
    /// the retained entries and the overflow buffer, in that order. While the
    /// pool is below its limit the line joins the entries; otherwise it joins
    /// the buffer, and a buffer grown to one full batch replaces the oldest
    /// batch of entries.
    pub open spec fn spec_ingest(self, line: String) -> (Seq<String>, Seq<String>) {
        if self.entries_view().len() < self.pool_limit_spec() {
            (self.entries_view().push(line), self.overflow_view())
        } else {
            let staged = self.overflow_view().push(line);
            if staged.len() == self.buffer_limit_spec() {
                (self.entries_view().skip(self.buffer_limit_spec() as int) + staged,
                Seq::empty())
            } else {
                (self.entries_view(), staged)
            }
        }
    }

    /// An empty pool with the given bounds.
    pub fn new(pool_limit: usize, buffer_limit: usize) -> (p: Pool)
        requires
            0 < buffer_limit <= pool_limit,
        ensures
            p.wf(),
            p.entries_view() == Seq::<String>::empty(),
            p.overflow_view() == Seq::<String>::empty(),
            p.pool_limit_spec() == pool_limit,
            p.buffer_limit_spec() == buffer_limit,
    {
        Pool { entries: Vec::new(), overflow: Vec::new(), pool_limit, buffer_limit }
    }

    /// Admit one line: append it to the pool while the pool is below its
    /// limit, otherwise stage it in the overflow buffer. Returns whether the
    /// line went straight into the pool.
    pub fn push(&mut self, line: String) -> (direct: bool)
        requires
            old(self).wf(),
            old(self).overflow_view().len() < old(self).buffer_limit_spec(),
        ensures
            final(self).wf(),
            final(self).pool_limit_spec() == old(self).pool_limit_spec(),
            final(self).buffer_limit_spec() == old(self).buffer_limit_spec(),
            direct == (old(self).entries_view().len() < old(self).pool_limit_spec()),
            direct ==> final(self).entries_view() == old(self).entries_view().push(line)
                && final(self).overflow_view() == old(self).overflow_view(),
            !direct ==> final(self).entries_view() == old(self).entries_view()
                && final(self).overflow_view() == old(self).overflow_view().push(line),
    {
        if self.entries.len() < self.pool_limit {
            self.entries.push(line);
            true
        } else {
            self.overflow.push(line);
            false
        }
    }

    /// When the overflow buffer holds one full batch, evict the oldest batch
    /// from the pool and append the buffer; otherwise do nothing. Returns
    /// whether an eviction took place.
    pub fn flush_if_full(&mut self) -> (flushed: bool)
        requires
            old(self).wf(),
        ensures
            final(self).wf(),
            final(self).pool_limit_spec() == old(self).pool_limit_spec(),
            final(self).buffer_limit_spec() == old(self).buffer_limit_spec(),
            flushed == (old(self).overflow_view().len() == old(self).buffer_limit_spec()),
            flushed ==> final(self).entries_view() == old(self).entries_view().skip(
                old(self).buffer_limit_spec() as int,
            ) + old(self).overflow_view(),
            !flushed ==> final(self).entries_view() == old(self).entries_view(),
            final(self).overflow_view().len() < final(self).buffer_limit_spec(),
            flushed ==> final(self).overflow_view() == Seq::<String>::empty(),
            !flushed ==> final(self).overflow_view() == old(self).overflow_view(),
            final(self).entries_view().len() >= old(self).entries_view().len(),
    {
        if self.overflow.len() == self.buffer_limit {
            let kept = self.entries.split_off(self.buffer_limit);
            self.entries = kept;
            self.entries.append(&mut self.overflow);
            assert(self.entries@ =~= old(self).entries@.skip(self.buffer_limit as int)
                + old(self).overflow@);
            true
        } else {
            false
        }
    }

    /// At end of input, flush a partial overflow batch by the same
    /// drop-oldest-then-append rule, sized to the batch.
    pub fn drain_remaining(&mut self)
        requires
            old(self).wf(),
        ensures
            final(self).wf(),
            final(self).pool_limit_spec() == old(self).pool_limit_spec(),
            final(self).buffer_limit_spec() == old(self).buffer_limit_spec(),
            final(self).entries_view() == old(self).entries_view().skip(
                old(self).overflow_view().len() as int,
            ) + old(self).overflow_view(),
            final(self).overflow_view() == Seq::<String>::empty(),
            final(self).entries_view().len() == old(self).entries_view().len(),
    {
        if self.overflow.len() > 0 {
            let kept = self.entries.split_off(self.overflow.len());
            self.entries = kept;
            self.entries.append(&mut self.overflow);
            assert(self.entries@ =~= old(self).entries@.skip(old(self).overflow@.len() as int)
                + old(self).overflow@);
        } else {
            assert(self.entries@ =~= old(self).entries@.skip(0) + old(self).overflow@);
        }
    }

    /// Most lines the pool retains.
    pub fn pool_limit(&self) -> (n: usize)
        ensures
            n == self.pool_limit_spec(),
    {
        self.pool_limit
    }

    /// Size of one eviction batch.
    pub fn buffer_limit(&self) -> (n: usize)
        ensures
            n == self.buffer_limit_spec(),
    {
        self.buffer_limit
    }

    /// How many candidates the pool currently retains.
    pub fn len(&self) -> (n: usize)
        ensures
            n == self.entries_view().len(),
    {
        self.entries.len()
    }

    /// How many lines wait in the overflow buffer.
    pub fn overflow_len(&self) -> (n: usize)
        ensures
            n == self.overflow_view().len(),
    {
        self.overflow.len()
    }

    /// A read-only view of the retained candidates, oldest first.
    pub fn snapshot_for_read(&self) -> (r: &Vec<String>)
        ensures
            r@ == self.entries_view(),
    {
        &self.entries
    }
}

/// The pool's bounds hold in every well-formed state: the pool never exceeds
/// its limit, and the overflow buffer never exceeds one batch.
pub proof fn lemma_pool_bounded(p: Pool)
    requires
        p.wf(),
    ensures
        p.entries_view().len() <= p.pool_limit_spec(),
        p.overflow_view().len() <= p.buffer_limit_spec(),
{
}

} // verus!
