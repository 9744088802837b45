//! The UI state machine (the conveyor): it owns the display state — query
//! text, current ranked matches, selection cursor, total candidate count —
//! applies one event at a time, and says when the screen must be redrawn.
//! Drawing itself is the caller's business; every transition here is pure.

use crate::events::{Event, Ranking};
use crate::fuzzy::Match;
use vstd::prelude::*;

verus! {

/// The display state: query text, ranked matches, selection cursor and the
/// total candidate count at the time of the last ranking.
pub struct UiState {
    query: String,
    matches: Vec<Match>,
    cursor: usize,
    total: usize,
}

impl UiState {
    /// The current query text.
    pub closed spec fn query_spec(self) -> String {
        self.query
    }

    /// The current ranked matches.
    pub closed spec fn matches_spec(self) -> Seq<Match> {
        self.matches@
    }

    /// The selection cursor, an index into the matches.
    pub closed spec fn cursor_spec(self) -> nat {
        self.cursor as nat
    }

    /// The total candidate count at the time of the last ranking.
    pub closed spec fn total_spec(self) -> nat {
        self.total as nat
    }

    /// The cursor stays clamped to the matches: on the first match when there
    /// are none, within them otherwise.
    pub open spec fn wf(self) -> bool {
        if self.matches_spec().len() == 0 {
            self.cursor_spec() == 0
        } else {
            self.cursor_spec() < self.matches_spec().len()
        }
    }

    /// The state a session starts in: empty query, no matches, cursor on the
    /// first position, no candidates counted.
    pub fn new() -> (s: UiState)
        ensures
            s.wf(),
            s.query_spec()@ == Seq::<char>::empty(),
            s.matches_spec() == Seq::<Match>::empty(),
            s.cursor_spec() == 0,
            s.total_spec() == 0,
    {
        UiState { query: String::new(), matches: Vec::new(), cursor: 0, total: 0 }
    }

    /// Replace the query text; matches, cursor and count stay.
    pub fn set_query(&mut self, query: String)
        ensures
            final(self).query_spec() == query,
            final(self).matches_spec() == old(self).matches_spec(),
            final(self).cursor_spec() == old(self).cursor_spec(),
            final(self).total_spec() == old(self).total_spec(),
    {
        self.query = query;
    }

    /// Receive a new ranking: replace the matches and the total count, and
    /// reset the selection cursor to the first match.
    pub fn set_matches(&mut self, ranking: Ranking)
        ensures
            final(self).wf(),
            final(self).query_spec() == old(self).query_spec(),
            final(self).matches_spec() == ranking.matches@,
            final(self).cursor_spec() == 0,
            final(self).total_spec() == ranking.total,
    {
        self.matches = ranking.matches;
        self.total = ranking.total;
        self.cursor = 0;
    }

    /// Move the selection one position up, saturating at the first match.
    pub fn select_up(&mut self)
        ensures
            final(self).query_spec() == old(self).query_spec(),
            final(self).matches_spec() == old(self).matches_spec(),
            final(self).total_spec() == old(self).total_spec(),
            final(self).cursor_spec() == if old(self).cursor_spec() > 0 {
                (old(self).cursor_spec() - 1) as nat
            } else {
                0
            },
    {
        if self.cursor > 0 {
            self.cursor = self.cursor - 1;
        }
    }

    /// Move the selection one position down, saturating at the last match.
    pub fn select_down(&mut self)
        requires
            old(self).wf(),
        ensures
            final(self).wf(),
            final(self).query_spec() == old(self).query_spec(),
            final(self).matches_spec() == old(self).matches_spec(),
            final(self).total_spec() == old(self).total_spec(),
            final(self).cursor_spec() == if old(self).cursor_spec() + 1 < old(self).matches_spec().len() {
                old(self).cursor_spec() + 1
            } else {
                old(self).cursor_spec()
            },
    {
        if self.matches.len() > 0 && self.cursor + 1 < self.matches.len() {
            self.cursor = self.cursor + 1;
        }
    }

    /// The line under the cursor, or nothing when there are no matches.
    pub fn selection(&self) -> (r: Option<String>)
        requires
            self.wf(),
        ensures
            (r is Some) == (self.matches_spec().len() > 0),
            r is Some ==> r->Some_0 == self.matches_spec()[self.cursor_spec() as int].text,
    {
        if self.matches.len() == 0 {
            None
        } else {
            Some(self.matches[self.cursor].text.clone())
        }
    }

    /// The current query text, for drawing.
    pub fn query(&self) -> (r: &String)
        ensures
            r == self.query_spec(),
    {
        &self.query
    }

    /// The current ranked matches, for drawing.
    pub fn matches(&self) -> (r: &Vec<Match>)
        ensures
            r@ == self.matches_spec(),
    {
        &self.matches
    }

    /// The selection cursor, for drawing.
    pub fn cursor(&self) -> (r: usize)
        ensures
            r == self.cursor_spec(),
    {
        self.cursor
    }

    /// The total candidate count, for drawing.
    pub fn total(&self) -> (r: usize)
        ensures
            r == self.total_spec(),
    {
        self.total
    }
}

/// The conveyor: the UI state plus the line the user confirmed, if any. One
/// event goes in, the state moves, and the caller learns whether to redraw.
pub struct Conveyor {
    state: UiState,
    chosen: Option<String>,
}

impl Conveyor {
    /// The display state the conveyor holds.
    pub closed spec fn state_spec(self) -> UiState {
        self.state
    }

    /// The confirmed selection, if the user confirmed one.
    pub closed spec fn chosen_spec(self) -> Option<String> {
        self.chosen
    }

    pub open spec fn wf(self) -> bool {
        self.state_spec().wf()
    }

    /// A conveyor over a fresh display state, with nothing confirmed.
    pub fn new() -> (c: Conveyor)
        ensures
            c.wf(),
            c.state_spec().query_spec()@ == Seq::<char>::empty(),
            c.state_spec().matches_spec() == Seq::<Match>::empty(),
            c.state_spec().cursor_spec() == 0,
            c.state_spec().total_spec() == 0,
            c.chosen_spec() is None,
    {
        Conveyor { state: UiState::new(), chosen: None }
    }

    /// Apply one event to the display state. Returns whether the state
    /// changed in a way that asks for a redraw. A confirmation with no
    /// matches yields no selection; it is not an error, and no event ends
    /// the loop here — the session ends when the event source closes.
    pub fn handle(&mut self, ev: Event) -> (render: bool)
        requires
            old(self).wf(),
        ensures
            final(self).wf(),
            match ev {
                Event::Query(q) => render && final(self).state_spec().query_spec() == q
                    && final(self).state_spec().matches_spec() == old(self).state_spec().matches_spec() && final(self).state_spec().cursor_spec() == old(self).state_spec().cursor_spec() && final(self).state_spec().total_spec() == old(self).state_spec().total_spec() && final(self).chosen_spec() == old(self).chosen_spec(),
                Event::Matches(r) => render && final(self).state_spec().query_spec() == old(self).state_spec().query_spec() && final(self).state_spec().matches_spec() == r.matches@
                    && final(self).state_spec().cursor_spec() == 0 && final(self).state_spec().total_spec() == r.total && final(self).chosen_spec() == old(self).chosen_spec(),
                Event::Up => render && final(self).state_spec().query_spec() == old(self).state_spec().query_spec() && final(self).state_spec().matches_spec() == old(self).state_spec().matches_spec() && final(self).state_spec().total_spec() == old(self).state_spec().total_spec() && final(self).state_spec().cursor_spec() == if old(self).state_spec().cursor_spec() > 0 {
                    (old(self).state_spec().cursor_spec() - 1) as nat
                } else {
                    0
                } && final(self).chosen_spec() == old(self).chosen_spec(),
                Event::Down => render && final(self).state_spec().query_spec() == old(self).state_spec().query_spec() && final(self).state_spec().matches_spec() == old(self).state_spec().matches_spec() && final(self).state_spec().total_spec() == old(self).state_spec().total_spec() && final(self).state_spec().cursor_spec() == if old(self).state_spec().cursor_spec() + 1 < old(self).state_spec().matches_spec().len() {
                    old(self).state_spec().cursor_spec() + 1
                } else {
                    old(self).state_spec().cursor_spec()
                } && final(self).chosen_spec() == old(self).chosen_spec(),
                Event::Done => !render && final(self).state_spec() == old(self).state_spec()
                    && final(self).chosen_spec() == if old(self).state_spec().matches_spec().len()
                    > 0 {
                    Some(
                        old(self).state_spec().matches_spec()[old(self).state_spec().cursor_spec() as int].text,
                    )
                } else {
                    None
                },
                _ => !render && final(self).state_spec() == old(self).state_spec() && final(self).chosen_spec() == old(self).chosen_spec(),
            },
    {
        match ev {
            Event::Query(q) => {
                self.state.set_query(q);
                true
            },
            Event::Matches(r) => {
                self.state.set_matches(r);
                true
            },
            Event::Up => {
                self.state.select_up();
                true
            },
            Event::Down => {
                self.state.select_down();
                true
            },
            Event::Done => {
                self.chosen = self.state.selection();
                false
            },
            _ => false,
        }
    }

    /// The display state, for drawing.
    pub fn state(&self) -> (r: &UiState)
        ensures
            r == self.state_spec(),
    {
        &self.state
    }

    /// The confirmed selection so far: the line the user confirmed, or
    /// nothing when nothing was confirmed or no match was under the cursor.
    pub fn selection(&self) -> (r: Option<String>)
        ensures
            r == self.chosen_spec(),
    {
        match &self.chosen {
            None => None,
            Some(s) => Some(s.clone()),
        }
    }
}

} // verus!
