//! The result reconciler: of the search results streaming in, only one whose
//! submission marker is newer than every marker forwarded so far may reach
//! the UI; an out-of-date result is silently dropped, so the UI never
//! regresses from a newer ranking to a stale one.

use crate::events::Ranking;
use vstd::prelude::*;

verus! {

/// Guard against out-of-order result delivery.
pub struct Reconciler {
    latest: Option<u64>,
}

impl Reconciler {
    /// The newest submission marker forwarded so far, if any.
    pub closed spec fn latest_spec(self) -> Option<u64> {
        self.latest
    }

    /// Whether a result carrying this marker is newer than everything
    /// forwarded so far.
    pub open spec fn accepts(self, marker: u64) -> bool {
        match self.latest_spec() {
            None => true,
            Some(m) => marker > m,
        }
    }

    /// A reconciler that has forwarded nothing yet.
    pub fn new() -> (r: Reconciler)
        ensures
            r.latest_spec() is None,
    {
        Reconciler { latest: None }
    }

    /// Record a result's marker: accepted exactly when it is newer than every
    /// marker forwarded so far, in which case it becomes the newest.
    pub fn accept(&mut self, marker: u64) -> (b: bool)
        ensures
            b == old(self).accepts(marker),
            final(self).latest_spec() == if b {
                Some(marker)
            } else {
                old(self).latest_spec()
            },
    {
        match self.latest {
            None => {
                self.latest = Some(marker);
                true
            },
            Some(m) => {
                if marker > m {
                    self.latest = Some(marker);
                    true
                } else {
                    false
                }
            },
        }
    }

    /// Forward a search result to the UI exactly when its marker is the
    /// newest seen so far; drop it otherwise.
    pub fn reconcile(&mut self, result: Ranking, marker: u64) -> (out: Option<Ranking>)
        ensures
            old(self).accepts(marker) ==> out == Some(result) && final(self).latest_spec()
                == Some(marker),
            !old(self).accepts(marker) ==> out is None && final(self).latest_spec() == old(self).latest_spec(),
    {
        if self.accept(marker) {
            Some(result)
        } else {
            None
        }
    }
}

} // verus!
