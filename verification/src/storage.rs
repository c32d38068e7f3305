//! The small-size-optimized backing store of a flag set: smallvec's growable
//! array, held in an opaque wrapper struct and reached only through the
//! trusted functions below. The contents of a store are modelled as the
//! sequence of the canonical texts of its elements, in storage order.

use crate::variant::Variant;
use vstd::prelude::*;

verus! {

/// A store of variants, backed by smallvec's `SmallVec<[Variant; 2]>`: up to
/// two elements live inline, more spill to the heap. Verus sees the store
/// only through [`sv_elems`] and the functions below; smallvec's own type
/// cannot be declared to Verus because its generic parameter is bound by
/// smallvec's `Array` trait.
#[verifier::external_body]
pub struct Store {
    items: smallvec::SmallVec<[Variant; 2]>,
}

/// The canonical texts of the elements a store holds, in storage order.
pub uninterp spec fn sv_elems(v: Store) -> Seq<Seq<char>>;

/// Relies on smallvec::SmallVec::new: a freshly created store is empty.
#[verifier::external_body]
pub(crate) fn sv_new() -> (r: Store)
    ensures
        sv_elems(r) == Seq::<Seq<char>>::empty(),
{
    Store { items: smallvec::SmallVec::new() }
}

/// Relies on smallvec::SmallVec::len: the number of stored elements.
#[verifier::external_body]
pub(crate) fn sv_len(v: &Store) -> (r: usize)
    ensures
        r == sv_elems(*v).len(),
{
    v.items.len()
}

/// Relies on smallvec::SmallVec::push: appends one element at the end,
/// keeping every element already there. As with std's `Vec::push`, growing
/// the store aborts the process if the allocation fails; no input is
/// excluded on that account.
#[verifier::external_body]
pub(crate) fn sv_push(v: &mut Store, x: Variant)
    ensures
        sv_elems(*final(v)) == sv_elems(*old(v)).push(x@),
{
    v.items.push(x)
}

/// Relies on smallvec's `core::ops::Index` impl (backed by Deref to a
/// slice): element `i` in storage order, borrowed.
#[verifier::external_body]
pub(crate) fn sv_get<'a>(v: &'a Store, i: usize) -> (r: &'a Variant)
    requires
        i < sv_elems(*v).len(),
    ensures
        r@ == sv_elems(*v)[i as int],
{
    &v.items[i]
}

} // verus!
