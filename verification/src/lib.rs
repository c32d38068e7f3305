//! Open string enums ("variants") and deduplicated string-flag sets.
//!
//! A [`Variant`] is an owned piece of text held in one canonical "flat
//! lowercase" form: no uppercase letters, no word separators. A fixed catalog
//! of named values can be declared while arbitrary caller-supplied text is
//! also accepted, every value being normalized the same way. [`Flags`] is a
//! small, order-insensitive, deduplicated collection of variants supporting
//! set algebra, and [`Query`] lets membership tests accept values of several
//! shapes uniformly. An advisory similarity diagnostic can flag pairs of
//! strings that are suspiciously close (a likely typo) without ever changing
//! an equality result.

#![allow(unused_imports)]

use vstd::prelude::*;

pub mod canon;
pub mod elems;
pub mod laws;
pub mod operators;
pub mod query;
pub mod serial;
pub mod set;
pub mod storage;
pub mod variant;

pub use canon::canonicalize;
pub use query::Query;
pub use set::Flags;
pub use set::FlagsMarker;
pub use variant::Variant;

verus! {

/// The default sensitivity ratio of the similarity diagnostic.
pub const DEFAULT_MATCH_RATIO: usize = 8;

/// The minimum length (in characters) both strings must exceed before the
/// similarity diagnostic considers them at all.
pub const MIN_DIAGNOSTIC_LEN: usize = 3;

/// Configuration of the advisory similarity diagnostic: a single positive
/// ratio (smaller means more sensitive), by default
/// [`DEFAULT_MATCH_RATIO`]. The caller owns one of these and may overwrite
/// the ratio at any time; it only ever influences the advisory signal, never
/// an equality result.
pub struct MatchConfig {
    pub ratio: usize,
}

impl Default for MatchConfig {
    fn default() -> (r: Self)
        ensures
            r.ratio == DEFAULT_MATCH_RATIO,
    {
        MatchConfig { ratio: DEFAULT_MATCH_RATIO }
    }
}

/// Sets the debug warning ratio, by default 8. If the edit distance between
/// two compared strings is at most the sum of their lengths divided by this
/// ratio, the comparison is flagged as a possible typo.
pub fn set_debug_match_ratio(config: &mut MatchConfig, value: usize)
    ensures
        final(config).ratio == value,
{
    config.ratio = value;
}

/// The Levenshtein edit distance between two character sequences. The
/// distance is a function of the two sequences alone; its value is not
/// restated here, only named.
pub uninterp spec fn edit_distance(a: Seq<char>, b: Seq<char>) -> nat;

/// Relies on levenshtein::levenshtein: the edit distance between the two
/// strings, computed character by character; a pure, total function of its
/// arguments.
#[verifier::external_body]
fn levenshtein_distance(a: &str, b: &str) -> (r: usize)
    ensures
        r == edit_distance(a@, b@),
{
    levenshtein::levenshtein(a, b)
}

/// When the advisory similarity diagnostic fires: both strings are longer
/// than the minimum and their edit distance is within the length-scaled
/// threshold.
pub open spec fn spec_possible_typo(a: Seq<char>, b: Seq<char>, ratio: int) -> bool {
    a.len() > MIN_DIAGNOSTIC_LEN && b.len() > MIN_DIAGNOSTIC_LEN && edit_distance(a, b) <= (
    a.len() + b.len()) as int / ratio
}

/// Decides the advisory "possible typo" signal for a pair of strings: true
/// when both exceed the minimum length and their edit distance is at most
/// the sum of their lengths divided by the configured ratio. Advisory only:
/// the result carries no weight in any equality decision.
pub fn possible_typo(a: &str, b: &str, config: &MatchConfig) -> (r: bool)
    requires
        config.ratio >= 1,
    ensures
        r == spec_possible_typo(a@, b@, config.ratio as int),
{
    let a_len = a.unicode_len();
    let b_len = b.unicode_len();
    if a_len > MIN_DIAGNOSTIC_LEN && b_len > MIN_DIAGNOSTIC_LEN {
        let d = levenshtein_distance(a, b);
        let total: u128 = a_len as u128 + b_len as u128;
        let threshold: u128 = total / (config.ratio as u128);
        (d as u128) <= threshold
    } else {
        false
    }
}

/// Exact string equality, character by character. This is the authoritative
/// comparison everything else builds on; the similarity diagnostic never
/// changes its result.
pub fn str_eq(a: &str, b: &str) -> (r: bool)
    ensures
        r == (a@ == b@),
{
    let a_len = a.unicode_len();
    let b_len = b.unicode_len();
    if a_len != b_len {
        return false;
    }
    let mut i: usize = 0;
    while i < a_len
        invariant
            a_len == a@.len(),
            b_len == b@.len(),
            a_len == b_len,
            0 <= i <= a_len,
            forall|j: int| 0 <= j < i ==> a@[j] == b@[j],
        decreases a_len - i,
    {
        if a.get_char(i) != b.get_char(i) {
            return false;
        }
        i = i + 1;
    }
    proof {
        assert(a@ =~= b@);
    }
    true
}

} // verus!
