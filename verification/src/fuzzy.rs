//! The fuzzy matcher: a candidate matches when the query's characters appear
//! in it as a subsequence (order kept, gaps allowed). Matches are ranked by a
//! deterministic score and ties keep the candidates' original order.
//!
//! The score of a non-empty query rewards contiguity first: a candidate that
//! holds the query as one contiguous substring gets the full contiguity
//! weight; otherwise the greedy left-to-right matching counts its adjacent
//! matched pairs, and a scattered match that begins at a word boundary is
//! lifted above one that does not. Shorter candidates score higher than
//! longer ones that match equally well. An empty query matches every
//! candidate with one uniform score.

use vstd::prelude::*;
use vstd::string::StrSliceExecFns;

verus! {

/// One ranked candidate: the matched line and its score.
pub struct Match {
    pub text: String,
    pub score: i128,
}

/// Whether `q[qi..]` appears as a subsequence of `c[ci..]`.
pub open spec fn match_from(q: Seq<char>, c: Seq<char>, qi: int, ci: int) -> bool
    decreases c.len() - ci,
{
    if qi >= q.len() {
        true
    } else if ci >= c.len() {
        false
    } else if q[qi] == c[ci] {
        match_from(q, c, qi + 1, ci + 1)
    } else {
        match_from(q, c, qi, ci + 1)
    }
}

/// Whether the query appears in the candidate as a subsequence.
pub open spec fn is_match(q: Seq<char>, c: Seq<char>) -> bool {
    match_from(q, c, 0, 0)
}

/// Whether `idx` picks, from position `ci` on, strictly increasing positions
/// of `c` that spell out `q[qi..]` character by character.
pub open spec fn embedding_from(q: Seq<char>, c: Seq<char>, qi: int, ci: int, idx: Seq<int>) -> bool {
    &&& idx.len() == q.len() - qi
    &&& forall|k: int| 0 <= k < idx.len() ==> ci <= #[trigger] idx[k] < c.len() && c[idx[k]]
        == q[qi + k]
    &&& forall|k: int| 0 <= k < idx.len() - 1 ==> #[trigger] idx[k] < idx[k + 1]
}

/// A matching tail yields an embedding of its positions.
proof fn lemma_match_to_embedding(q: Seq<char>, c: Seq<char>, qi: int, ci: int)
    requires
        0 <= qi <= q.len(),
        0 <= ci <= c.len(),
        match_from(q, c, qi, ci),
    ensures
        exists|idx: Seq<int>| #[trigger] embedding_from(q, c, qi, ci, idx),
    decreases c.len() - ci,
{
    if qi == q.len() {
        assert(embedding_from(q, c, qi, ci, Seq::<int>::empty()));
    } else if q[qi] == c[ci] {
        lemma_match_to_embedding(q, c, qi + 1, ci + 1);
        let rest = choose|idx: Seq<int>| #[trigger] embedding_from(q, c, qi + 1, ci + 1, idx);
        let idx = seq![ci] + rest;
        assert(embedding_from(q, c, qi, ci, idx)) by {
            assert(forall|k: int| 1 <= k < idx.len() ==> idx[k] == rest[k - 1]);
        }
    } else {
        lemma_match_to_embedding(q, c, qi, ci + 1);
        let idx = choose|idx: Seq<int>| #[trigger] embedding_from(q, c, qi, ci + 1, idx);
        assert(embedding_from(q, c, qi, ci, idx));
    }
}

/// An embedding of positions yields a greedy match.
proof fn lemma_embedding_to_match(q: Seq<char>, c: Seq<char>, qi: int, ci: int, idx: Seq<int>)
    requires
        0 <= qi <= q.len(),
        0 <= ci <= c.len(),
        embedding_from(q, c, qi, ci, idx),
    ensures
        match_from(q, c, qi, ci),
    decreases c.len() - ci,
{
    if qi == q.len() {
    } else {
        assert(ci <= idx[0] < c.len());
        if q[qi] == c[ci] {
            let rest = idx.skip(1);
            assert(embedding_from(q, c, qi + 1, ci + 1, rest)) by {
                assert forall|k: int| 0 <= k < rest.len() implies ci + 1 <= #[trigger] rest[k]
                    < c.len() && c[rest[k]] == q[qi + 1 + k] by {
                    assert(rest[k] == idx[k + 1]);
                    if k == 0 {
                        assert(idx[1] > idx[0] >= ci);
                    } else {
                        assert(idx[k + 1] > idx[k] >= ci);
                    }
                }
                assert(forall|k: int| 0 <= k < rest.len() - 1 ==> #[trigger] rest[k] < rest[k
                    + 1]);
            }
            lemma_embedding_to_match(q, c, qi + 1, ci + 1, rest);
        } else {
            assert(embedding_from(q, c, qi, ci + 1, idx)) by {
                assert forall|k: int| 0 <= k < idx.len() implies ci + 1 <= #[trigger] idx[k] by {
                    if k == 0 {
                        assert(c[idx[0]] == q[qi]);
                    } else {
                        assert(idx[k] > idx[k - 1] >= ci);
                    }
                }
            }
            lemma_embedding_to_match(q, c, qi, ci + 1, idx);
        }
    }
}

/// The subsequence characterization of matching: a candidate matches exactly
/// when some strictly increasing choice of its positions spells the query.
pub proof fn lemma_match_iff_embedding(q: Seq<char>, c: Seq<char>)
    ensures
        is_match(q, c) <==> exists|idx: Seq<int>| #[trigger] embedding_from(q, c, 0, 0, idx),
{
    if is_match(q, c) {
        lemma_match_to_embedding(q, c, 0, 0);
    }
    if exists|idx: Seq<int>| #[trigger] embedding_from(q, c, 0, 0, idx) {
        let idx = choose|idx: Seq<int>| #[trigger] embedding_from(q, c, 0, 0, idx);
        lemma_embedding_to_match(q, c, 0, 0, idx);
    }
}

/// The greedy left-to-right matching of `q[qi..]` against `c[ci..]`, with the
/// accumulated position of the first match, position of the latest match, and
/// count of adjacent matched pairs. Returns whether the whole query matched,
/// the first match position and the pair count.
pub open spec fn scan_from(
    q: Seq<char>,
    c: Seq<char>,
    qi: int,
    ci: int,
    first: int,
    last: int,
    pairs: nat,
) -> (bool, int, nat)
    decreases c.len() - ci,
{
    if qi >= q.len() {
        (true, first, pairs)
    } else if ci >= c.len() {
        (false, first, pairs)
    } else if q[qi] == c[ci] {
        scan_from(
            q,
            c,
            qi + 1,
            ci + 1,
            if qi == 0 { ci } else { first },
            ci,
            if qi > 0 && ci >= 1 && last == ci - 1 { pairs + 1 } else { pairs },
        )
    } else {
        scan_from(q, c, qi, ci + 1, first, last, pairs)
    }
}

/// The greedy matching of the whole query against the whole candidate.
pub open spec fn scan(q: Seq<char>, c: Seq<char>) -> (bool, int, nat) {
    scan_from(q, c, 0, 0, 0, 0, 0)
}

/// Whether the query occurs as a contiguous substring of `c` at position `i`.
pub open spec fn occurs_at(q: Seq<char>, c: Seq<char>, i: int) -> bool {
    0 <= i && i + q.len() <= c.len() && c.subrange(i, i + q.len()) == q
}

/// Whether the query occurs as a contiguous substring of the candidate.
pub open spec fn is_substring(q: Seq<char>, c: Seq<char>) -> bool {
    exists|i: int| occurs_at(q, c, i)
}

/// Whether position `i` of a candidate starts a word: the start of the line,
/// or right after a space.
pub open spec fn at_boundary(c: Seq<char>, i: int) -> bool {
    i == 0 || c[i - 1] == ' '
}

/// The score of a matching candidate. An empty query scores every candidate
/// uniformly; otherwise contiguity carries the dominant weight, a scattered
/// match starting at a word boundary is lifted, and longer candidates pay for
/// their length.
pub open spec fn score(q: Seq<char>, c: Seq<char>) -> int {
    if q.len() == 0 {
        0
    } else {
        let info = scan(q, c);
        let runs: int = if is_substring(q, c) {
            q.len() - 1
        } else {
            info.2 as int
        };
        let bonus: int = if !is_substring(q, c) && at_boundary(c, info.1) {
            8
        } else {
            0
        };
        16 * runs + bonus - c.len()
    }
}

/// The greedy matching succeeds exactly when the query is a subsequence.
proof fn lemma_scan_matches(q: Seq<char>, c: Seq<char>, qi: int, ci: int, first: int, last: int, pairs: nat)
    ensures
        scan_from(q, c, qi, ci, first, last, pairs).0 == match_from(q, c, qi, ci),
    decreases c.len() - ci,
{
    if qi >= q.len() {
    } else if ci >= c.len() {
    } else if q[qi] == c[ci] {
        lemma_scan_matches(
            q,
            c,
            qi + 1,
            ci + 1,
            if qi == 0 { ci } else { first },
            ci,
            if qi > 0 && ci >= 1 && last == ci - 1 { pairs + 1 } else { pairs },
        );
    } else {
        lemma_scan_matches(q, c, qi, ci + 1, first, last, pairs);
    }
}

/// The characters of a line, in order.
pub fn line_chars(s: &str) -> (r: Vec<char>)
    ensures
        r@ == s@,
{
    let n = s.unicode_len();
    let mut r: Vec<char> = Vec::new();
    let mut i: usize = 0;
    while i < n
        invariant
            i <= n,
            n == s@.len(),
            r@ == s@.take(i as int),
        decreases n - i,
    {
        r.push(s.get_char(i));
        assert(r@ =~= s@.take(i + 1 as int));
        i = i + 1;
    }
    assert(r@ =~= s@);
    r
}

/// Whether the query occurs as a contiguous substring of the candidate.
fn contains_query(query: &Vec<char>, cand: &Vec<char>) -> (b: bool)
    ensures
        b == is_substring(query@, cand@),
{
    if query.len() == 0 {
        assert(occurs_at(query@, cand@, 0)) by {
            assert(cand@.subrange(0, 0) =~= query@);
        }
        return true;
    }
    if query.len() > cand.len() {
        assert(!is_substring(query@, cand@)) by {
            if is_substring(query@, cand@) {
                let i = choose|i: int| occurs_at(query@, cand@, i);
                assert(false);
            }
        }
        return false;
    }
    let bound = cand.len() - query.len();
    let mut i: usize = 0;
    while i <= bound
        invariant
            query@.len() >= 1,
            cand@.len() <= usize::MAX,
            bound == cand@.len() - query@.len(),
            i <= bound + 1,
            forall|k: int| 0 <= k < i ==> !occurs_at(query@, cand@, k),
        decreases bound + 1 - i,
    {
        let mut j: usize = 0;
        while j < query.len() && cand[i + j] == query[j]
            invariant
                i + query@.len() <= cand@.len(),
                cand@.len() <= usize::MAX,
                j <= query@.len(),
                forall|t: int| 0 <= t < j ==> cand@[i + t] == query@[t],
            decreases query@.len() - j,
        {
            j = j + 1;
        }
        if j == query.len() {
            assert(occurs_at(query@, cand@, i as int)) by {
                assert(cand@.subrange(i as int, i + query@.len()) =~= query@);
            }
            return true;
        }
        proof {
            assert(cand@[i + j] != query@[j as int]);
            assert(!occurs_at(query@, cand@, i as int)) by {
                if occurs_at(query@, cand@, i as int) {
                    assert(cand@.subrange(i as int, i + query@.len())[j as int]
                        == cand@[i + j]);
                }
            }
        }
        i = i + 1;
    }
    assert(!is_substring(query@, cand@)) by {
        if is_substring(query@, cand@) {
            let k = choose|k: int| occurs_at(query@, cand@, k);
            assert(0 <= k <= bound);
            assert(false);
        }
    }
    false
}

/// The score of the candidate against the query, or nothing when the query is
/// not a subsequence of the candidate.
pub fn score_of(query: &Vec<char>, cand: &Vec<char>) -> (r: Option<i128>)
    ensures
        r is Some <==> is_match(query@, cand@),
        r is Some ==> r->Some_0 as int == score(query@, cand@),
{
    if query.len() == 0 {
        return Some(0);
    }
    let mut qi: usize = 0;
    let mut ci: usize = 0;
    let mut first: usize = 0;
    let mut last: usize = 0;
    let mut pairs: usize = 0;
    while ci < cand.len() && qi < query.len()
        invariant
            qi <= query@.len(),
            ci <= cand@.len(),
            pairs <= qi,
            qi > 0 ==> first < cand@.len(),
            scan(query@, cand@) == scan_from(
                query@,
                cand@,
                qi as int,
                ci as int,
                first as int,
                last as int,
                pairs as nat,
            ),
        decreases cand@.len() - ci,
    {
        if cand[ci] == query[qi] {
            if qi == 0 {
                first = ci;
            } else if ci >= 1 && last == ci - 1 {
                pairs = pairs + 1;
            }
            last = ci;
            qi = qi + 1;
        }
        ci = ci + 1;
    }
    assert(scan(query@, cand@) == ((qi == query@.len()), first as int, pairs as nat));
    proof {
        lemma_scan_matches(query@, cand@, 0, 0, 0, 0, 0);
    }
    if qi < query.len() {
        return None;
    }
    let substring = contains_query(query, cand);
    let runs: usize = if substring {
        query.len() - 1
    } else {
        pairs
    };
    let bonus: i128 = if !substring && (first == 0 || cand[first - 1] == ' ') {
        8
    } else {
        0
    };
    let s: i128 = 16 * (runs as i128) + bonus - (cand.len() as i128);
    Some(s)
}

/// The ranked matches as (line, score) pairs, in ranking order.
pub open spec fn matches_view(s: Seq<Match>) -> Seq<(String, int)> {
    s.map_values(|m: Match| (m.text, m.score as int))
}

/// Insert one scored candidate into a ranking: it goes after every entry that
/// scores at least as high, so equal scores keep their insertion order.
pub open spec fn insert_desc(s: Seq<(String, int)>, p: (String, int)) -> Seq<(String, int)>
    decreases s.len(),
{
    if s.len() == 0 {
        seq![p]
    } else if s[0].1 >= p.1 {
        seq![s[0]] + insert_desc(s.skip(1), p)
    } else {
        seq![p] + s
    }
}

/// The full ranking of the candidates against the query: every matching
/// candidate with its score, in descending score order, ties kept in the
/// candidates' original order.
pub open spec fn rank_all(q: Seq<char>, cs: Seq<String>) -> Seq<(String, int)>
    decreases cs.len(),
{
    if cs.len() == 0 {
        Seq::empty()
    } else {
        let prev = rank_all(q, cs.drop_last());
        let c = cs.last();
        if is_match(q, c@) {
            insert_desc(prev, (c, score(q, c@)))
        } else {
            prev
        }
    }
}

/// Inserting after the first `j` entries (all scoring at least `p`) and
/// before the rest (scoring below `p`) is what `insert_desc` does.
proof fn lemma_insert_desc_at(s: Seq<(String, int)>, p: (String, int), j: int)
    requires
        0 <= j <= s.len(),
        forall|k: int| 0 <= k < j ==> s[k].1 >= p.1,
        j == s.len() || s[j].1 < p.1,
    ensures
        insert_desc(s, p) == s.insert(j, p),
    decreases s.len(),
{
    if s.len() == 0 {
        assert(insert_desc(s, p) =~= s.insert(0, p));
    } else if j == 0 {
        assert(insert_desc(s, p) =~= s.insert(0, p));
    } else {
        assert(s[0].1 >= p.1);
        lemma_insert_desc_at(s.skip(1), p, j - 1);
        assert(seq![s[0]] + s.skip(1).insert(j - 1, p) =~= s.insert(j, p));
    }
}

/// One step of the ranking: the ranking of the first `i + 1` candidates is
/// the ranking of the first `i` with the `i`th inserted, when it matches.
proof fn lemma_rank_all_step(q: Seq<char>, cs: Seq<String>, i: int)
    requires
        0 <= i < cs.len(),
    ensures
        rank_all(q, cs.take(i + 1)) == if is_match(q, cs[i]@) {
            insert_desc(rank_all(q, cs.take(i)), (cs[i], score(q, cs[i]@)))
        } else {
            rank_all(q, cs.take(i))
        },
{
    let s = cs.take(i + 1);
    assert(s.drop_last() =~= cs.take(i));
    assert(s.last() == cs[i]);
}

/// Insert one scored line into a ranking held in descending score order,
/// after every entry that scores at least as high.
fn insert_ranked(out: &mut Vec<Match>, m: Match)
    ensures
        matches_view(final(out)@) == insert_desc(
            matches_view(old(out)@),
            (m.text, m.score as int),
        ),
{
    let ghost p = (m.text, m.score as int);
    let ghost pre = out@;
    let mut j: usize = 0;
    while j < out.len() && out[j].score >= m.score
        invariant
            out@ == pre,
            j <= out@.len(),
            forall|k: int| 0 <= k < j ==> out@[k].score >= m.score,
        decreases out@.len() - j,
    {
        j = j + 1;
    }
    proof {
        lemma_insert_desc_at(matches_view(out@), p, j as int);
        assert(forall|k: int| 0 <= k < j ==> matches_view(pre)[k].1 >= p.1);
    }
    out.insert(j, m);
    assert(matches_view(out@) =~= matches_view(pre).insert(j as int, p));
}

/// After a match at `ci - 1`, the rest of the scan adds at most one pair per
/// remaining query character, and adds exactly that many only when the rest
/// of the query sits contiguously at `ci`.
proof fn lemma_scan_hot(q: Seq<char>, c: Seq<char>, qi: int, ci: int, first: int, pairs: nat)
    requires
        1 <= qi <= q.len(),
        1 <= ci <= c.len(),
    ensures
        ({
            let r = scan_from(q, c, qi, ci, first, ci - 1, pairs);
            r.0 ==> r.2 <= pairs + q.len() - qi && (r.2 == pairs + q.len() - qi ==> ci + q.len()
                - qi <= c.len() && c.subrange(ci, ci + q.len() - qi) == q.subrange(qi, q.len() as int))
        }),
    decreases c.len() - ci,
{
    let r = scan_from(q, c, qi, ci, first, ci - 1, pairs);
    if qi == q.len() {
        assert(c.subrange(ci, ci) =~= q.subrange(qi, q.len() as int));
    } else if ci >= c.len() {
    } else if q[qi] == c[ci] {
        lemma_scan_hot(q, c, qi + 1, ci + 1, first, pairs + 1);
        let r2 = scan_from(q, c, qi + 1, ci + 1, first, ci, (pairs + 1) as nat);
        assert(r == r2);
        if r.0 && r.2 == pairs + q.len() - qi {
            assert(c.subrange(ci + 1, ci + 1 + q.len() - (qi + 1)) == q.subrange(qi + 1, q.len() as int));
            assert(c.subrange(ci, ci + q.len() - qi) =~= q.subrange(qi, q.len() as int)) by {
                assert forall|j: int| 0 <= j < q.len() - qi implies c.subrange(
                    ci,
                    ci + q.len() - qi,
                )[j] == q.subrange(qi, q.len() as int)[j] by {
                    if j >= 1 {
                        assert(c.subrange(ci + 1, ci + q.len() - qi)[j - 1] == q.subrange(
                            qi + 1,
                            q.len() as int,
                        )[j - 1]);
                    }
                }
            }
        }
    } else {
        lemma_scan_cold(q, c, qi, ci + 1, first, ci - 1, pairs);
    }
}

/// Away from the previous match, the next matched character adds no pair, so
/// the rest of the scan adds strictly fewer pairs than it matches characters.
proof fn lemma_scan_cold(q: Seq<char>, c: Seq<char>, qi: int, ci: int, first: int, last: int, pairs: nat)
    requires
        1 <= qi <= q.len(),
        0 <= ci <= c.len(),
        last <= ci - 2,
    ensures
        ({
            let r = scan_from(q, c, qi, ci, first, last, pairs);
            r.0 ==> r.2 <= pairs + if qi < q.len() {
                q.len() - qi - 1
            } else {
                0
            }
        }),
    decreases c.len() - ci,
{
    if qi == q.len() {
    } else if ci >= c.len() {
    } else if q[qi] == c[ci] {
        lemma_scan_hot(q, c, qi + 1, ci + 1, first, pairs);
    } else {
        lemma_scan_cold(q, c, qi, ci + 1, first, last, pairs);
    }
}

/// Before the first match no pair can be added, so a full greedy match of a
/// non-empty query gathers at most one pair per query character after the
/// first — and gathers exactly that many only when the query occurs
/// contiguously.
proof fn lemma_scan_start(q: Seq<char>, c: Seq<char>, ci: int, first: int, last: int, pairs: nat)
    requires
        q.len() >= 1,
        0 <= ci <= c.len(),
    ensures
        ({
            let r = scan_from(q, c, 0, ci, first, last, pairs);
            r.0 ==> r.2 <= pairs + q.len() - 1 && (r.2 == pairs + q.len() - 1 ==> is_substring(
                q,
                c,
            ))
        }),
    decreases c.len() - ci,
{
    let r = scan_from(q, c, 0, ci, first, last, pairs);
    if ci >= c.len() {
    } else if q[0] == c[ci] {
        lemma_scan_hot(q, c, 1, ci + 1, ci, pairs);
        if r.0 && r.2 == pairs + q.len() - 1 {
            assert(c.subrange(ci + 1, ci + q.len()) == q.subrange(1, q.len() as int));
            assert(occurs_at(q, c, ci)) by {
                assert(c.subrange(ci, ci + q.len()) =~= q) by {
                    assert forall|j: int| 0 <= j < q.len() implies c.subrange(
                        ci,
                        ci + q.len(),
                    )[j] == q[j] by {
                        if j >= 1 {
                            assert(c.subrange(ci + 1, ci + q.len())[j - 1] == q.subrange(
                                1,
                                q.len() as int,
                            )[j - 1]);
                        }
                    }
                }
            }
        }
    } else {
        lemma_scan_start(q, c, ci + 1, first, last, pairs);
    }
}

/// A scattered match gathers strictly fewer adjacent pairs than a contiguous
/// one would.
proof fn lemma_scattered_pairs(q: Seq<char>, c: Seq<char>)
    requires
        q.len() >= 1,
        is_match(q, c),
        !is_substring(q, c),
    ensures
        scan(q, c).2 <= q.len() - 2,
{
    lemma_scan_matches(q, c, 0, 0, 0, 0, 0);
    lemma_scan_start(q, c, 0, 0, 0, 0);
}

/// A candidate holding the query as one contiguous substring always outranks
/// a candidate of the same length that only matches it scattered.
pub proof fn lemma_contiguous_outranks(q: Seq<char>, c1: Seq<char>, c2: Seq<char>)
    requires
        q.len() > 0,
        c1.len() == c2.len(),
        is_substring(q, c1),
        is_match(q, c2),
        !is_substring(q, c2),
    ensures
        score(q, c1) > score(q, c2),
{
    lemma_scattered_pairs(q, c2);
}

/// A ranking in descending score order.
pub open spec fn sorted_desc(s: Seq<(String, int)>) -> bool {
    forall|i: int, j: int| 0 <= i <= j < s.len() ==> s[i].1 >= s[j].1
}

/// Inserting into a descending ranking keeps it descending.
proof fn lemma_insert_desc_sorted(s: Seq<(String, int)>, p: (String, int))
    requires
        sorted_desc(s),
    ensures
        sorted_desc(insert_desc(s, p)),
    decreases s.len(),
{
    if s.len() == 0 {
    } else if s[0].1 >= p.1 {
        assert(sorted_desc(s.skip(1)));
        lemma_insert_desc_sorted(s.skip(1), p);
        let r = seq![s[0]] + insert_desc(s.skip(1), p);
        assert forall|i: int, j: int| 0 <= i <= j < r.len() implies r[i].1 >= r[j].1 by {
            lemma_insert_desc_entries(s.skip(1), p);
            if i == 0 && j > 0 {
                assert(r[j] == insert_desc(s.skip(1), p)[j - 1]);
            }
        }
    } else {
    }
}

/// Every entry of an insertion is the inserted pair or one of the old ones.
proof fn lemma_insert_desc_entries(s: Seq<(String, int)>, p: (String, int))
    ensures
        insert_desc(s, p).len() == s.len() + 1,
        forall|k: int| 0 <= k < insert_desc(s, p).len() ==> insert_desc(s, p)[k] == p || exists|t: int|
            0 <= t < s.len() && insert_desc(s, p)[k] == s[t],
    decreases s.len(),
{
    if s.len() == 0 {
    } else if s[0].1 >= p.1 {
        lemma_insert_desc_entries(s.skip(1), p);
        let r = seq![s[0]] + insert_desc(s.skip(1), p);
        assert forall|k: int| 0 <= k < r.len() implies r[k] == p || exists|t: int|
            0 <= t < s.len() && r[k] == s[t] by {
            if k > 0 {
                let inner = insert_desc(s.skip(1), p);
                assert(r[k] == inner[k - 1]);
                if inner[k - 1] != p {
                    let t = choose|t: int| 0 <= t < s.skip(1).len() && inner[k - 1] == s.skip(1)[t];
                    assert(r[k] == s[t + 1]);
                }
            }
        }
    } else {
    }
}

/// The ranking is sorted: scores never rise from one entry to the next.
pub proof fn lemma_rank_all_sorted(q: Seq<char>, cs: Seq<String>)
    ensures
        sorted_desc(rank_all(q, cs)),
    decreases cs.len(),
{
    if cs.len() > 0 {
        lemma_rank_all_sorted(q, cs.drop_last());
        if is_match(q, cs.last()@) {
            lemma_insert_desc_sorted(
                rank_all(q, cs.drop_last()),
                (cs.last(), score(q, cs.last()@)),
            );
        }
    }
}

/// Inserting below everything in the ranking appends at the end.
proof fn lemma_insert_desc_append(s: Seq<(String, int)>, p: (String, int))
    requires
        forall|k: int| 0 <= k < s.len() ==> s[k].1 >= p.1,
    ensures
        insert_desc(s, p) == s.push(p),
{
    lemma_insert_desc_at(s, p, s.len() as int);
    assert(s.insert(s.len() as int, p) =~= s.push(p));
}

/// An empty query matches every candidate: its ranking holds all of them, in
/// their original order, each with the one uniform score.
pub proof fn lemma_empty_query(cs: Seq<String>)
    ensures
        rank_all(Seq::<char>::empty(), cs).len() == cs.len(),
        forall|i: int| 0 <= i < cs.len() ==> rank_all(Seq::<char>::empty(), cs)[i] == (cs[i], 0int),
    decreases cs.len(),
{
    let q = Seq::<char>::empty();
    if cs.len() > 0 {
        lemma_empty_query(cs.drop_last());
        let prev = rank_all(q, cs.drop_last());
        assert(is_match(q, cs.last()@));
        assert(score(q, cs.last()@) == 0);
        lemma_insert_desc_append(prev, (cs.last(), 0int));
        assert(rank_all(q, cs) == prev.push((cs.last(), 0int)));
        assert forall|i: int| 0 <= i < cs.len() implies rank_all(q, cs)[i] == (cs[i], 0int) by {
            if i < cs.len() - 1 {
                assert(cs.drop_last()[i] == cs[i]);
            }
        }
    }
}

/// Rank every candidate against the query: the result is exactly the full
/// ranking `rank_all`, descending by score, ties in original order.
pub fn search(query: &str, candidates: &Vec<String>) -> (r: Vec<Match>)
    ensures
        matches_view(r@) == rank_all(query@, candidates@),
{
    let q = line_chars(query);
    let mut out: Vec<Match> = Vec::new();
    let mut i: usize = 0;
    while i < candidates.len()
        invariant
            i <= candidates@.len(),
            q@ == query@,
            matches_view(out@) == rank_all(query@, candidates@.take(i as int)),
        decreases candidates@.len() - i,
    {
        let cand = line_chars(candidates[i].as_str());
        match score_of(&q, &cand) {
            Some(s) => {
                let m = Match { text: candidates[i].clone(), score: s };
                insert_ranked(&mut out, m);
            },
            None => {},
        }
        proof {
            lemma_rank_all_step(query@, candidates@, i as int);
        }
        i = i + 1;
    }
    assert(candidates@.take(candidates@.len() as int) =~= candidates@);
    out
}

} // verus!
