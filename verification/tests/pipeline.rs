use scout::engine::Engine;
use scout::events::{Event, Prompt, Ranking};
use scout::fuzzy::Match;
use scout::reconcile::Reconciler;
use scout::state::Conveyor;

fn ranking(texts: &[&str]) -> Ranking {
    let matches = texts.iter().map(|t| Match { text: t.to_string(), score: 0 }).collect();
    Ranking { matches, total: texts.len() }
}

#[test]
fn engine_throttles_refreshes_to_one_per_batch() {
    let mut e = Engine::new(4, 2);
    let s1 = e.handle(Event::NewLine("apple".to_string()));
    assert!(s1.emit.is_none());
    assert!(s1.publish_pool);
    assert!(!s1.stop);
    let s2 = e.handle(Event::NewLine("banana".to_string()));
    match s2.emit {
        Some(Event::Flush(r)) => {
            assert_eq!(r.total, 2);
            assert_eq!(r.matches.len(), 2);
        },
        _ => panic!("a second line completes a batch and must refresh"),
    }
}

#[test]
fn engine_evicts_oldest_batch_once_full() {
    let mut e = Engine::new(2, 1);
    e.handle(Event::NewLine("l0".to_string()));
    e.handle(Event::NewLine("l1".to_string()));
    let step = e.handle(Event::NewLine("l2".to_string()));
    assert!(step.publish_pool);
    assert_eq!(e.snapshot(), &vec!["l1".to_string(), "l2".to_string()]);
    assert_eq!(e.candidate_count(), 2);
}

#[test]
fn engine_drains_partial_batch_at_end_of_input() {
    let mut e = Engine::new(3, 2);
    for l in ["l0", "l1", "l2", "l3"] {
        e.handle(Event::NewLine(l.to_string()));
    }
    assert_eq!(e.candidate_count(), 3);
    let step = e.handle(Event::EOF);
    assert!(step.publish_pool);
    assert_eq!(e.snapshot(), &vec!["l1".to_string(), "l2".to_string(), "l3".to_string()]);
    match step.emit {
        Some(Event::Flush(r)) => {
            assert_eq!(r.total, 3);
            assert_eq!(r.matches.len(), 3);
        },
        _ => panic!("end of input must emit one final refresh"),
    }
}

#[test]
fn engine_answers_a_submission_under_its_marker() {
    let mut e = Engine::with_defaults();
    for l in ["apple", "banana", "cherry"] {
        e.handle(Event::NewLine(l.to_string()));
    }
    let step = e.handle(Event::Search(Prompt { text: "an".to_string(), marker: 7 }));
    assert!(!step.publish_pool);
    match step.emit {
        Some(Event::SearchDone(r, marker)) => {
            assert_eq!(marker, 7);
            assert_eq!(r.total, 3);
            assert_eq!(r.matches.len(), 1);
            assert_eq!(r.matches[0].text, "banana");
        },
        _ => panic!("a submission must answer with its marker"),
    }
}

#[test]
fn engine_stops_on_done_and_exit_only() {
    let mut e = Engine::with_defaults();
    assert!(!e.handle(Event::Up).stop);
    assert!(!e.handle(Event::Query("q".to_string())).stop);
    assert!(e.handle(Event::Done).stop);
    let mut e2 = Engine::with_defaults();
    assert!(e2.handle(Event::Exit).stop);
}

#[test]
fn reconciler_forwards_only_the_newest_marker() {
    let mut rec = Reconciler::new();
    assert!(rec.reconcile(ranking(&["a"]), 3).is_some());
    assert!(rec.reconcile(ranking(&["b"]), 1).is_none());
    assert!(rec.reconcile(ranking(&["c"]), 2).is_none());
    assert!(rec.reconcile(ranking(&["d"]), 4).is_some());
}

#[test]
fn cursor_saturates_at_both_ends() {
    let mut c = Conveyor::new();
    assert!(c.handle(Event::Matches(ranking(&["a", "b", "c"]))));
    assert_eq!(c.state().cursor(), 0);
    assert!(c.handle(Event::Up));
    assert_eq!(c.state().cursor(), 0);
    c.handle(Event::Down);
    c.handle(Event::Down);
    assert_eq!(c.state().cursor(), 2);
    c.handle(Event::Down);
    assert_eq!(c.state().cursor(), 2);
}

#[test]
fn new_matches_reset_the_cursor() {
    let mut c = Conveyor::new();
    c.handle(Event::Matches(ranking(&["a", "b", "c"])));
    c.handle(Event::Down);
    assert_eq!(c.state().cursor(), 1);
    c.handle(Event::Matches(ranking(&["d", "e"])));
    assert_eq!(c.state().cursor(), 0);
    assert_eq!(c.state().total(), 2);
}

#[test]
fn done_with_no_matches_yields_no_selection() {
    let mut c = Conveyor::new();
    let render = c.handle(Event::Done);
    assert!(!render);
    assert_eq!(c.selection(), None);
}

#[test]
fn query_edits_only_touch_the_prompt() {
    let mut c = Conveyor::new();
    c.handle(Event::Matches(ranking(&["a", "b"])));
    c.handle(Event::Down);
    assert!(c.handle(Event::Query("ab".to_string())));
    assert_eq!(c.state().query(), "ab");
    assert_eq!(c.state().cursor(), 1);
}

#[test]
fn a_session_from_ingest_to_selection() {
    let mut e = Engine::with_defaults();
    let mut rec = Reconciler::new();
    let mut c = Conveyor::new();
    for l in ["alpha", "beta", "gamma"] {
        e.handle(Event::NewLine(l.to_string()));
    }
    let step = e.handle(Event::Search(Prompt { text: "a".to_string(), marker: 1 }));
    match step.emit {
        Some(Event::SearchDone(r, marker)) => {
            assert_eq!(r.total, 3);
            if let Some(fresh) = rec.reconcile(r, marker) {
                c.handle(Event::Matches(fresh));
            }
        },
        _ => panic!("a submission must be answered"),
    }
    // beta scores best ("a" lands latest in the shortest tail), then the tie
    // between alpha and gamma keeps pool order
    c.handle(Event::Down);
    c.handle(Event::Done);
    assert_eq!(c.selection(), Some("alpha".to_string()));
}
