//! Fuzzy scoring of a candidate path against the typed query, done by
//! the `fuzzy_matcher` crate. The score itself is opaque to the
//! library; what the library proves is how scores are turned into
//! ranking weights and how the weights order the results.

use vstd::prelude::*;

verus! {

/// The score that `fuzzy_matcher`'s `SkimMatcherV2`, in its default
/// configuration, assigns to `choice` matched against `pattern`; the
/// algorithm is a deterministic function of the two strings alone.
pub uninterp spec fn skim_score(choice: Seq<char>, pattern: Seq<char>) -> Option<i64>;

/// Relies on `fuzzy_matcher::skim::SkimMatcherV2`: `fuzzy_match` on a
/// `Default` matcher runs a dynamic-programming alignment whose result
/// depends only on the two strings (the matcher's thread-local caches
/// only reuse buffers), so the call returns `skim_score` of the two
/// views.
#[verifier::external_body]
fn fuzzy_score(choice: &str, pattern: &str) -> (r: Option<i64>)
    ensures
        r == skim_score(choice@, pattern@),
{
    fuzzy_matcher::FuzzyMatcher::fuzzy_match(
        &fuzzy_matcher::skim::SkimMatcherV2::default(),
        choice,
        pattern,
    )
}

/// The absolute value of a score.
pub open spec fn abs_score(s: i64) -> int {
    if s < 0 {
        -(s as int)
    } else {
        s as int
    }
}

/// The ranking weight of `choice` under query `pattern`: the absolute
/// value of its fuzzy score, or 0 when the matcher gives no score.
pub open spec fn weight_of(choice: Seq<char>, pattern: Seq<char>) -> int {
    match skim_score(choice, pattern) {
        Option::None => 0,
        Option::Some(s) => abs_score(s),
    }
}

/// Computes the ranking weight of one candidate.
pub fn weight(choice: &str, pattern: &str) -> (w: u64)
    ensures
        w as int == weight_of(choice@, pattern@),
{
    match fuzzy_score(choice, pattern) {
        Option::None => 0u64,
        Option::Some(s) => {
            if s >= 0 {
                s as u64
            } else if s == i64::MIN {
                9223372036854775808u64
            } else {
                (-s) as u64
            }
        },
    }
}

} // verus!
