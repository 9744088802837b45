use scout::fuzzy::{line_chars, score_of, search};

fn lines(texts: &[&str]) -> Vec<String> {
    texts.iter().map(|t| t.to_string()).collect()
}

#[test]
fn bc_query_keeps_subsequence_matches_only() {
    let cands = lines(&["abc", "bca", "xyz"]);
    let r = search("bc", &cands);
    assert_eq!(r.len(), 2);
    assert_eq!(r[0].text, "abc");
    assert_eq!(r[1].text, "bca");
    assert!(r.iter().all(|m| m.text != "xyz"));
    assert!(r[0].score >= r[1].score);
}

#[test]
fn contiguous_and_equal_length_scores() {
    let q = line_chars("bc");
    assert_eq!(score_of(&q, &line_chars("abc")), Some(13));
    assert_eq!(score_of(&q, &line_chars("bca")), Some(13));
    assert_eq!(score_of(&q, &line_chars("xyz")), None);
}

#[test]
fn empty_query_returns_everything_in_order() {
    let cands = lines(&["one", "two", "three"]);
    let r = search("", &cands);
    assert_eq!(r.len(), cands.len());
    assert_eq!(r[0].text, "one");
    assert_eq!(r[1].text, "two");
    assert_eq!(r[2].text, "three");
    assert!(r.iter().all(|m| m.score == 0));
}

#[test]
fn scattered_match_at_word_boundary_is_lifted() {
    let q = line_chars("ab");
    // scattered, starts the line: pairs 0, boundary 8, length 3
    assert_eq!(score_of(&q, &line_chars("acb")), Some(5));
    // scattered, starts a word after a space: boundary 8, length 5
    assert_eq!(score_of(&q, &line_chars("x acb")), Some(3));
    // scattered mid-word: no boundary, length 4
    assert_eq!(score_of(&q, &line_chars("xacb")), Some(-4));
}

#[test]
fn contiguous_outranks_scattered_at_equal_length() {
    let cands = lines(&["acb", "xab"]);
    let r = search("ab", &cands);
    assert_eq!(r.len(), 2);
    assert_eq!(r[0].text, "xab");
    assert_eq!(r[1].text, "acb");
    assert!(r[0].score > r[1].score);
}

#[test]
fn query_longer_than_candidate_never_matches() {
    let q = line_chars("abc");
    assert_eq!(score_of(&q, &line_chars("ab")), None);
    assert_eq!(score_of(&q, &line_chars("")), None);
}

#[test]
fn multibyte_characters_match_by_character() {
    let r = search("é", &lines(&["café", "tea"]));
    assert_eq!(r.len(), 1);
    assert_eq!(r[0].text, "café");
    assert_eq!(score_of(&line_chars("é"), &line_chars("café")), Some(-4));
}

#[test]
fn ties_keep_pool_order_across_repeats() {
    let cands = lines(&["aa", "ba", "ca"]);
    let first = search("a", &cands);
    let second = search("a", &cands);
    assert_eq!(first.len(), second.len());
    for (x, y) in first.iter().zip(second.iter()) {
        assert_eq!(x.text, y.text);
        assert_eq!(x.score, y.score);
    }
}
