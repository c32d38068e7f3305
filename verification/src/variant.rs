//! The string-identity value: one member of an open, extensible enumeration,
//! stored in canonical flat-lowercase form.

use crate::canon::canonicalize;
use crate::canon::flat_of;
use crate::canon::is_canonical;
use vstd::prelude::*;

verus! {

/// How many characters of canonical text a named constant may occupy: the
/// inline storage budget. Declaring a longer name is always acceptable;
/// reading such a constant is what fails (see [`Variant::named`]).
pub const INLINE_BUDGET: usize = 15;

/// One member of an open string enumeration: an owned piece of text that is
/// always in canonical flat-lowercase form. Two variants are equal exactly
/// when their canonical texts are identical, whether they came from named
/// constants or from arbitrary runtime text.
#[derive(Debug, Hash, PartialOrd, Ord)]
pub struct Variant {
    text: String,
}

impl View for Variant {
    type V = Seq<char>;

    closed spec fn view(&self) -> Seq<char> {
        self.text@
    }
}

impl Variant {
    /// Every variant holds canonical text: canonicalizing it again would
    /// change nothing.
    #[verifier::type_invariant]
    pub open spec fn inv(self) -> bool {
        is_canonical(self@)
    }

    /// Builds a variant from arbitrary text. Total: any input is accepted
    /// and normalized to its canonical form. Parsing text into a variant
    /// therefore never fails.
    pub fn new(text: &str) -> (r: Variant)
        ensures
            r@ == flat_of(text@),
            text@.len() == 0 ==> r@.len() == 0,
    {
        let t = canonicalize(text);
        Variant { text: t }
    }

    /// Builds the value of a named constant. Declaring any name is free; a
    /// value is produced only when the canonical form of the name fits the
    /// inline storage budget, and reading an oversized constant yields
    /// `None` instead, which the caller reports as a fatal condition.
    pub fn named(name: &str) -> (r: Option<Variant>)
        ensures
            match r {
                Some(v) => v@ == flat_of(name@) && flat_of(name@).len() <= INLINE_BUDGET,
                None => flat_of(name@).len() > INLINE_BUDGET,
            },
    {
        let t = canonicalize(name);
        if t.as_str().unicode_len() <= INLINE_BUDGET {
            Some(Variant { text: t })
        } else {
            None
        }
    }

    /// The canonical text, borrowed. This is also how a variant renders as
    /// text: its canonical string, exactly.
    pub fn as_str(&self) -> (r: &str)
        ensures
            r@ == self@,
    {
        self.text.as_str()
    }

    /// Compares this variant's canonical text with a raw string, exactly.
    /// The caller is expected to hand in flat-lowercase text; no conversion
    /// is performed here.
    pub fn eq_str(&self, other: &str) -> (r: bool)
        ensures
            r == (self@ == other@),
    {
        crate::str_eq(self.text.as_str(), other)
    }
}

impl Clone for Variant {
    /// An independent copy with the same canonical text.
    fn clone(&self) -> (r: Self)
        ensures
            r == *self,
    {
        proof {
            use_type_invariant(&*self);
        }
        Variant { text: self.text.clone() }
    }
}

impl PartialEq for Variant {
    /// Two variants are equal exactly when their canonical texts are
    /// byte-identical. The similarity diagnostic never weakens this.
    fn eq(&self, other: &Self) -> (r: bool) {
        crate::str_eq(self.text.as_str(), other.text.as_str())
    }
}

impl vstd::std_specs::cmp::PartialEqSpecImpl for Variant {
    open spec fn obeys_eq_spec() -> bool {
        true
    }

    open spec fn eq_spec(&self, other: &Self) -> bool {
        self@ == other@
    }
}

impl Eq for Variant {

}

impl Default for Variant {
    /// The empty variant: canonical text of no characters.
    fn default() -> (r: Self)
        ensures
            r@ == Seq::<char>::empty(),
    {
        let r = Variant::new("");
        proof {
            reveal_strlit("");
            assert(r@ =~= Seq::<char>::empty());
        }
        r
    }
}

} // verus!
