//! Fuzzy subsequence matching, used by the library search.
//!
//! A pattern matches a target when its characters appear in the target in
//! order, not necessarily next to each other. The score rewards each matched
//! character, runs of consecutive matches and matches at word boundaries,
//! and docks a point for every unmatched character once matching has begun.
use vstd::prelude::*;
use crate::text::chars_of;

verus! {

/// Points for every matched character.
pub const MATCH_POINTS: u32 = 10;
/// Extra points when a match directly follows the previous match.
pub const RUN_POINTS: u32 = 10;
/// Extra points when a match starts a word.
pub const BOUNDARY_POINTS: u32 = 15;

/// The characters after which a new word begins.
pub open spec fn is_boundary_char(c: char) -> bool {
    c == ' ' || c == '-' || c == '_' || c == '(' || c == ')' || c == '.' || c == '/' || c == '\''
}

/// A match starts a word when nothing precedes it or a separator does.
pub open spec fn spec_is_word_boundary(prev: Option<char>) -> bool {
    match prev {
        None => true,
        Some(c) => is_boundary_char(c),
    }
}

/// Whether the characters `p[j..]` occur in order within `t[i..]`.
pub open spec fn subseq_from(p: Seq<char>, t: Seq<char>, i: int, j: int) -> bool
    decreases t.len() - i,
{
    if j >= p.len() {
        true
    } else if i >= t.len() || i < 0 {
        false
    } else if t[i] == p[j] {
        subseq_from(p, t, i + 1, j + 1)
    } else {
        subseq_from(p, t, i + 1, j)
    }
}

/// Whether `p` is a subsequence of `t`.
pub open spec fn is_subsequence(p: Seq<char>, t: Seq<char>) -> bool {
    subseq_from(p, t, 0, 0)
}

/// The score after `score` loses one point, never going below zero.
pub open spec fn dock(score: nat) -> nat {
    if score == 0 { 0 } else { (score - 1) as nat }
}

/// Points earned by matching at target position `i` with the given previous
/// target and pattern characters.
pub open spec fn match_points(prev_t: Option<char>, prev_p: Option<char>) -> nat {
    MATCH_POINTS as nat
        + (if prev_t is Some && prev_t == prev_p { RUN_POINTS as nat } else { 0 })
        + (if spec_is_word_boundary(prev_t) { BOUNDARY_POINTS as nat } else { 0 })
}

/// The scan of `t` from position `i`, with `j` pattern characters matched so
/// far: `Some(score)` as soon as the last pattern character matches, `None`
/// once too few target characters remain to finish.
pub open spec fn scan(
    p: Seq<char>,
    t: Seq<char>,
    i: int,
    j: int,
    score: nat,
    started: bool,
    prev_t: Option<char>,
    prev_p: Option<char>,
) -> Option<nat>
    decreases t.len() - i,
{
    if i >= t.len() || i < 0 || j < 0 || j >= p.len() {
        None
    } else {
        let remaining = t.len() - i - 1;
        if t[i] == p[j] {
            let score2 = score + match_points(prev_t, prev_p);
            if j + 1 == p.len() {
                Some(score2)
            } else if remaining < p.len() - (j + 1) {
                None
            } else {
                scan(p, t, i + 1, j + 1, score2, true, Some(t[i]), Some(p[j]))
            }
        } else {
            let score2 = if started { dock(score) } else { score };
            if remaining < p.len() - j {
                None
            } else {
                scan(p, t, i + 1, j, score2, started, Some(t[i]), prev_p)
            }
        }
    }
}

/// The score of `pattern` against `target`.
pub open spec fn spec_subsequence_score(p: Seq<char>, t: Seq<char>) -> Option<nat> {
    if p.len() == 0 {
        Some(0)
    } else if t.len() < p.len() {
        None
    } else {
        scan(p, t, 0, 0, 0, false, None, None)
    }
}

/// The largest score a pattern of `n` characters can reach.
pub open spec fn max_score(n: nat) -> nat {
    n * 35
}

/// Whether `prev` marks the start of a word: no previous character, or one
/// of the separators space, `-`, `_`, `(`, `)`, `.`, `/` and `'`.
pub fn is_word_boundary(prev: Option<char>) -> (b: bool)
    ensures
        b == spec_is_word_boundary(prev),
{
    match prev {
        None => true,
        Some(c) => c == ' ' || c == '-' || c == '_' || c == '(' || c == ')' || c == '.' || c == '/'
            || c == '\'',
    }
}

/// Scales a match score by the length of the field it was found in, so that
/// a match in a short field counts for more than the same match in a long one.
/// The length is taken as a `u32` (cut to its low 32 bits).
pub fn normalize_by_length(score: u32, field_len: usize) -> (r: u32)
    requires
        score * 100 <= u32::MAX,
        (field_len as u32) + 8 <= u32::MAX,
    ensures
        r == (score * 100) / ((field_len as u32) + 8),
{
    score * 100 / (field_len as u32 + 8)
}

proof fn lemma_scan_bound(
    p: Seq<char>,
    t: Seq<char>,
    i: int,
    j: int,
    score: nat,
    started: bool,
    prev_t: Option<char>,
    prev_p: Option<char>,
)
    requires
        0 <= j,
        score <= 35 * j,
    ensures
        scan(p, t, i, j, score, started, prev_t, prev_p) matches Some(s) ==> s <= max_score(p.len()),
    decreases t.len() - i,
{
    if i >= t.len() || i < 0 || j < 0 || j >= p.len() {
    } else {
        if t[i] == p[j] {
            lemma_scan_bound(p, t, i + 1, j + 1, score + match_points(prev_t, prev_p), true, Some(t[i]), Some(p[j]));
        } else {
            let score2 = if started { dock(score) } else { score };
            lemma_scan_bound(p, t, i + 1, j, score2, started, Some(t[i]), prev_p);
        }
    }
}

/// The fuzzy score of `pattern` within `target`: `None` when `pattern` is not
/// a subsequence of `target`, `Some(0)` for an empty pattern, and otherwise
/// the score described at the top of this module. Comparison is exact, so
/// callers lowercase both sides first.
pub fn subsequence_score(pattern: &str, target: &str) -> (r: Option<u32>)
    requires
        max_score(pattern@.len()) <= u32::MAX,
    ensures
        r matches Some(s) ==> spec_subsequence_score(pattern@, target@) == Some(s as nat),
        r is None ==> spec_subsequence_score(pattern@, target@) is None,
{
    let p = chars_of(pattern);
    let t = chars_of(target);
    let pattern_len = p.len();
    if pattern_len == 0 {
        return Some(0);
    }
    let target_len = t.len();
    if target_len < pattern_len {
        return None;
    }
    let mut prev_pattern_char: Option<char> = None;
    let mut prev_target_char: Option<char> = None;
    let mut matched: usize = 0;
    let mut score: u32 = 0;
    let mut start_match = false;
    let mut i: usize = 0;
    let ghost total = scan(p@, t@, 0, 0, 0, false, None, None);
    proof {
        lemma_scan_bound(p@, t@, 0, 0, 0, false, None, None);
    }
    while i < target_len
        invariant
            p@ == pattern@,
            t@ == target@,
            pattern_len == p@.len(),
            target_len == t@.len(),
            0 < pattern_len <= target_len,
            max_score(pattern_len as nat) <= u32::MAX,
            0 <= i <= target_len,
            0 <= matched < pattern_len,
            score <= 35 * matched,
            target_len - i >= pattern_len - matched,
            total == scan(p@, t@, i as int, matched as int, score as nat, start_match, prev_target_char, prev_pattern_char),
            total == spec_subsequence_score(pattern@, target@),
        decreases target_len - i,
    {
        let target_char = t[i];
        let pattern_char = p[matched];
        let remaining = target_len - i - 1;
        if target_char == pattern_char {
            start_match = true;
            score = score + MATCH_POINTS;
            if prev_target_char.is_some() && prev_target_char == prev_pattern_char {
                score = score + RUN_POINTS;
            }
            if is_word_boundary(prev_target_char) {
                score = score + BOUNDARY_POINTS;
            }
            prev_pattern_char = Some(pattern_char);
            matched = matched + 1;
            if matched == pattern_len {
                return Some(score);
            }
        } else if start_match {
            score = score.saturating_sub(1);
        }
        prev_target_char = Some(target_char);
        if remaining < pattern_len - matched {
            return None;
        }
        i = i + 1;
    }
    None
}

/// A match score is `Some` exactly when the pattern is a subsequence of the
/// target: every scan that gives up early does so only because the target
/// has too few characters left to finish the match.
pub proof fn lemma_scan_some_iff_subseq(
    p: Seq<char>,
    t: Seq<char>,
    i: int,
    j: int,
    score: nat,
    started: bool,
    prev_t: Option<char>,
    prev_p: Option<char>,
)
    requires
        0 <= i,
        0 <= j < p.len(),
        t.len() - i >= p.len() - j,
    ensures
        scan(p, t, i, j, score, started, prev_t, prev_p) is Some <==> subseq_from(p, t, i, j),
    decreases t.len() - i,
{
    if i >= t.len() {
    } else {
        let remaining = t.len() - i - 1;
        if t[i] == p[j] {
            let score2 = score + match_points(prev_t, prev_p);
            if j + 1 == p.len() {
                assert(subseq_from(p, t, i + 1, j + 1));
            } else if remaining < p.len() - (j + 1) {
                if subseq_from(p, t, i + 1, j + 1) {
                    lemma_subseq_needs_room(p, t, i + 1, j + 1);
                }
            } else {
                lemma_scan_some_iff_subseq(p, t, i + 1, j + 1, score2, true, Some(t[i]), Some(p[j]));
            }
        } else {
            let score2 = if started { dock(score) } else { score };
            if remaining < p.len() - j {
                if subseq_from(p, t, i + 1, j) {
                    lemma_subseq_needs_room(p, t, i + 1, j);
                }
            } else {
                lemma_scan_some_iff_subseq(p, t, i + 1, j, score2, started, Some(t[i]), prev_p);
            }
        }
    }
}

/// Matching `p[j..]` needs at least as many target characters as there are
/// pattern characters left.
pub proof fn lemma_subseq_needs_room(p: Seq<char>, t: Seq<char>, i: int, j: int)
    requires
        0 <= i,
        0 <= j < p.len(),
        subseq_from(p, t, i, j),
    ensures
        t.len() - i >= p.len() - j,
    decreases t.len() - i,
{
    if i >= t.len() {
    } else if t[i] == p[j] {
        if j + 1 < p.len() {
            lemma_subseq_needs_room(p, t, i + 1, j + 1);
        }
    } else {
        lemma_subseq_needs_room(p, t, i + 1, j);
    }
}

/// Law: the fuzzy score of a pattern against a target is `Some` exactly when
/// the pattern's characters occur in the target in order.
pub proof fn law_score_some_iff_subsequence(p: Seq<char>, t: Seq<char>)
    ensures
        spec_subsequence_score(p, t) is Some <==> is_subsequence(p, t),
{
    if p.len() == 0 {
    } else if t.len() < p.len() {
        if is_subsequence(p, t) {
            lemma_subseq_needs_room(p, t, 0, 0);
        }
    } else {
        lemma_scan_some_iff_subseq(p, t, 0, 0, 0, false, None, None);
    }
}

/// Law: the empty pattern matches every target with score zero.
pub proof fn law_empty_pattern_scores_zero(t: Seq<char>)
    ensures
        spec_subsequence_score(Seq::empty(), t) == Some(0nat),
{
}

/// Law: a pattern longer than the target never matches.
pub proof fn law_longer_pattern_never_matches(p: Seq<char>, t: Seq<char>)
    requires
        t.len() < p.len(),
    ensures
        spec_subsequence_score(p, t) is None,
{
}

/// Law: a match of a pattern of `n` characters scores at most
/// `max_score(n)`.
pub proof fn law_score_bounded(p: Seq<char>, t: Seq<char>)
    ensures
        spec_subsequence_score(p, t) matches Some(s) ==> s <= max_score(p.len()),
{
    if p.len() > 0 && t.len() >= p.len() {
        lemma_scan_bound(p, t, 0, 0, 0, false, None, None);
    }
}

proof fn lemma_self_scan(t: Seq<char>, i: int)
    requires
        0 < i < t.len(),
        forall|k: int| 0 <= k < t.len() - 1 ==> !is_boundary_char(#[trigger] t[k]),
    ensures
        scan(t, t, i, i, (20 * i + 5) as nat, true, Some(t[i - 1]), Some(t[i - 1])) == Some((20 * t.len() + 5) as nat),
    decreases t.len() - i,
{
    assert(!is_boundary_char(t[i - 1]));
    if i + 1 < t.len() {
        lemma_self_scan(t, i + 1);
    }
}

/// Law: a word matched against itself (no separator before its last
/// character) scores 25 for its first character, which starts a word, and
/// 20 for each further one, which continues a run: `20 * n + 5` for `n`
/// characters.
pub proof fn law_word_matches_itself(t: Seq<char>)
    requires
        t.len() > 0,
        forall|k: int| 0 <= k < t.len() - 1 ==> !is_boundary_char(#[trigger] t[k]),
    ensures
        spec_subsequence_score(t, t) == Some((20 * t.len() + 5) as nat),
{
    if t.len() > 1 {
        lemma_self_scan(t, 1);
    }
}

proof fn lemma_gap_scan(p: Seq<char>, t: Seq<char>, g: int, i: int)
    requires
        p.len() == 2,
        1 <= g <= 25,
        t.len() == g + 2,
        t[g + 1] == p[1],
        forall|k: int| 1 <= k <= g ==> #[trigger] t[k] != p[0] && t[k] != p[1] && !is_boundary_char(t[k]),
        1 <= i <= g + 1,
    ensures
        scan(p, t, i, 1, (26 - i) as nat, true, Some(t[i - 1]), Some(p[0])) == Some((35 - g) as nat),
    decreases g + 1 - i,
{
    if i <= g {
        lemma_gap_scan(p, t, g, i + 1);
    } else {
        assert(t[g] != p[0] && !is_boundary_char(t[g]));
    }
}

/// Law: after matching begins, each character passed over costs a point: a
/// two-character pattern whose first character starts the target and whose
/// second ends it, `g` other characters (1 to 25, none a separator or
/// either pattern character) between them, scores 25 for the first match,
/// less one for each character between, plus 10 for the second: `35 - g`.
pub proof fn law_gap_costs_a_point_each(p: Seq<char>, t: Seq<char>, g: int)
    requires
        p.len() == 2,
        1 <= g <= 25,
        t.len() == g + 2,
        t[0] == p[0],
        t[g + 1] == p[1],
        forall|k: int| 1 <= k <= g ==> #[trigger] t[k] != p[0] && t[k] != p[1] && !is_boundary_char(t[k]),
    ensures
        spec_subsequence_score(p, t) == Some((35 - g) as nat),
{
    assert(t[1] != p[0]);
    lemma_gap_scan(p, t, g, 1);
}

} // verus!
