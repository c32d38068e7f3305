//! The canonicalizer: every piece of text is reduced to one "flat lowercase"
//! representation, so that case and separator variations of the same name
//! compare equal.

use convert_case::Casing;
use vstd::prelude::*;

verus! {

/// The canonical "flat lowercase" image of a character sequence: the word
/// separators (underscore, hyphen, space) are dropped and every remaining
/// character is lowercased. The exact image is a function of the input alone;
/// it is named here rather than restated.
pub uninterp spec fn flat_of(s: Seq<char>) -> Seq<char>;

/// A character sequence is canonical when canonicalizing it changes nothing.
pub open spec fn is_canonical(s: Seq<char>) -> bool {
    flat_of(s) == s
}

/// Relies on convert_case's `Casing::to_case` with `Case::Flat`: the input is
/// split at the default boundaries (underscore, hyphen, space, and case or
/// digit transitions), each word is lowercased, and the words are joined with
/// no delimiter. The result is a function of the input characters alone. It
/// contains no separator and no uppercase letter, so converting it a second
/// time returns it unchanged, and an empty input gives an empty result.
#[verifier::external_body]
fn to_flat_case(s: &str) -> (r: String)
    ensures
        r@ == flat_of(s@),
        flat_of(r@) == r@,
        s@.len() == 0 ==> r@.len() == 0,
{
    s.to_case(convert_case::Case::Flat)
}

/// Maps arbitrary text to its canonical form: a single unbroken lowercase
/// token, with no word separators. Total and deterministic, and idempotent:
/// the result is itself canonical, so canonicalizing it again returns it
/// unchanged.
pub fn canonicalize(text: &str) -> (r: String)
    ensures
        r@ == flat_of(text@),
        is_canonical(r@),
        text@.len() == 0 ==> r@.len() == 0,
{
    to_flat_case(text)
}

} // verus!
