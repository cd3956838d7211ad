//! Salience scoring of candidate statements, in hundredths: a base of 50, 10 for
//! each keyword found (case-insensitively), 20 for a structural marker found
//! (case-sensitively), at most 100.
use vstd::prelude::*;
use crate::text::{chars_of, contains, contains_chars};

verus! {

pub const BASE_SCORE: u32 = 50;
pub const KEYWORD_BONUS: u32 = 10;
pub const MARKER_BONUS: u32 = 20;
pub const MAX_SCORE: u32 = 100;

/// The lower-case form of `s`, as `str::to_lowercase` gives it.
pub uninterp spec fn lower_of(s: Seq<char>) -> Seq<char>;

/// Relies on `str::to_lowercase`: the result depends on the characters alone.
#[verifier::external_body]
fn lowercase(s: &str) -> (r: String)
    ensures
        r@ == lower_of(s@),
{
    s.to_lowercase()
}

pub open spec fn one_if(b: bool) -> nat {
    if b { 1 } else { 0 }
}

/// How many of the keywords occur in the lower-cased text.
pub open spec fn keyword_count(lowered: Seq<char>) -> nat {
    one_if(contains(lowered, "decision"@)) + one_if(contains(lowered, "learned"@)) + one_if(
        contains(lowered, "important"@),
    ) + one_if(contains(lowered, "critical"@)) + one_if(contains(lowered, "completed"@))
        + one_if(contains(lowered, "project"@))
}

/// Whether the text holds a structural marker, with exact case.
pub open spec fn has_marker(text: Seq<char>) -> bool {
    contains(text, "Status"@) || contains(text, "Next Steps"@)
}

/// The score of `text`, whose lower-case form is `lowered`.
pub open spec fn score_of(lowered: Seq<char>, text: Seq<char>) -> nat {
    let raw: nat = (BASE_SCORE + KEYWORD_BONUS * keyword_count(lowered) + if has_marker(text) {
        MARKER_BONUS as nat
    } else {
        0
    }) as nat;
    if raw > MAX_SCORE { MAX_SCORE as nat } else { raw }
}

fn holds(hay: &Vec<char>, needle: &str) -> (r: bool)
    ensures
        r == contains(hay@, needle@),
{
    contains_chars(hay, &chars_of(needle))
}

/// The score of `text`, given its lower-case form `lowered`.
pub fn score_folded(lowered: &str, text: &str) -> (r: u32)
    ensures
        r == score_of(lowered@, text@),
{
    let l = chars_of(lowered);
    let t = chars_of(text);
    let mut score: u32 = BASE_SCORE;
    if holds(&l, "decision") {
        score += KEYWORD_BONUS;
    }
    if holds(&l, "learned") {
        score += KEYWORD_BONUS;
    }
    if holds(&l, "important") {
        score += KEYWORD_BONUS;
    }
    if holds(&l, "critical") {
        score += KEYWORD_BONUS;
    }
    if holds(&l, "completed") {
        score += KEYWORD_BONUS;
    }
    if holds(&l, "project") {
        score += KEYWORD_BONUS;
    }
    if holds(&t, "Status") || holds(&t, "Next Steps") {
        score += MARKER_BONUS;
    }
    if score > MAX_SCORE {
        MAX_SCORE
    } else {
        score
    }
}

/// The salience score of `text`, in hundredths.
pub fn score_signal(text: &str) -> (r: u32)
    ensures
        r == score_of(lower_of(text@), text@),
{
    let lowered = lowercase(text);
    score_folded(lowered.as_str(), text)
}

/// Every score lies between the base and the cap, and a structural marker
/// lifts it to at least the base plus the marker bonus.
pub proof fn lemma_score_bounds(lowered: Seq<char>, text: Seq<char>)
    ensures
        BASE_SCORE <= score_of(lowered, text) <= MAX_SCORE,
        has_marker(text) ==> score_of(lowered, text) >= BASE_SCORE + MARKER_BONUS,
{
}

/// More keywords never lower the score, and raise it wherever it is below the cap.
pub proof fn lemma_score_monotonic(l1: Seq<char>, t1: Seq<char>, l2: Seq<char>, t2: Seq<char>)
    requires
        keyword_count(l1) < keyword_count(l2),
        has_marker(t1) == has_marker(t2),
    ensures
        score_of(l1, t1) <= score_of(l2, t2),
        score_of(l1, t1) < MAX_SCORE ==> score_of(l1, t1) < score_of(l2, t2),
{
}

} // verus!
