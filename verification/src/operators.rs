//! The set algebra of [`Flags`]: union, difference, intersection and
//! symmetric difference, each against a single [`Variant`] or another set,
//! each as a value-returning operation and as an in-place assignment with
//! identical semantics. All twelve combinations are specified against the
//! model functions of [`crate::elems`].

use crate::elems::all_canonical;
use crate::elems::diff_els;
use crate::elems::distinct_els;
use crate::elems::insert_el;
use crate::elems::inter_els;
use crate::elems::inter_one_els;
use crate::elems::lemma_canonical_join;
use crate::elems::lemma_diff_els_props;
use crate::elems::lemma_inter_els_props;
use crate::elems::lemma_insert_el_props;
use crate::elems::lemma_remove_el_props;
use crate::elems::lemma_toggle_el_props;
use crate::elems::lemma_union_els_props;
use crate::elems::lemma_xor_els_props;
use crate::elems::remove_el;
use crate::elems::toggle_el;
use crate::elems::union_els;
use crate::elems::xor_els;
use crate::set::Flags;
use crate::set::store_has;
use crate::storage::Store;
use crate::storage::sv_elems;
use crate::storage::sv_get;
use crate::storage::sv_len;
use crate::storage::sv_new;
use crate::storage::sv_push;
use crate::variant::Variant;
use vstd::prelude::*;

verus! {

broadcast use vstd::seq_lib::group_seq_properties;

/// A fresh store holding clones of the elements, in the same order.
fn copy_store(v: &Store) -> (r: Store)
    ensures
        sv_elems(r) == sv_elems(*v),
{
    let n = sv_len(v);
    let mut items = sv_new();
    let mut i: usize = 0;
    while i < n
        invariant
            n == sv_elems(*v).len(),
            0 <= i <= n,
            sv_elems(items) == sv_elems(*v).take(i as int),
        decreases n - i,
    {
        let e = sv_get(v, i);
        let c = e.clone();
        sv_push(&mut items, c);
        proof {
            assert(sv_elems(items) =~= sv_elems(*v).take(i as int + 1));
        }
        i = i + 1;
    }
    proof {
        assert(sv_elems(*v).take(n as int) =~= sv_elems(*v));
    }
    items
}

impl Flags {
    /// Union with one value: the set plus the value, unless an equal element
    /// is already present; a duplicate is never introduced.
    pub fn union_one(&self, value: Variant) -> (r: Flags)
        ensures
            r@ == insert_el(self@, value@),
    {
        proof {
            use_type_invariant(&*self);
            use_type_invariant(&value);
            lemma_insert_el_props(self@, value@);
        }
        let mut items = copy_store(self.raw());
        if !store_has(&items, value.as_str()) {
            sv_push(&mut items, value);
        }
        proof {
            lemma_canonical_join(self@, seq![value@], insert_el(self@, value@));
        }
        Flags::from_raw(items)
    }

    /// Union with another set: the left elements plus any right element not
    /// already present, in the right set's order.
    pub fn union(&self, other: &Flags) -> (r: Flags)
        ensures
            r@ == union_els(self@, other@),
    {
        let n = other.len();
        let mut r = self.clone();
        let mut i: usize = 0;
        while i < n
            invariant
                n == other@.len(),
            0 <= i <= n,
            r@ == union_els(self@, other@.take(i as int)),
            decreases n - i,
        {
            proof {
                assert(other@.take(i as int + 1).drop_last() =~= other@.take(i as int));
                assert(other@.take(i as int + 1).last() == other@[i as int]);
            }
            let v = other.get(i);
            let c = v.clone();
            r = r.union_one(c);
            i = i + 1;
        }
        proof {
            assert(other@.take(n as int) =~= other@);
        }
        r
    }

    /// Difference by one value: the set with the element equal to the value
    /// removed, if one is present.
    pub fn difference_one(&self, value: Variant) -> (r: Flags)
        ensures
            r@ == remove_el(self@, value@),
    {
        proof {
            use_type_invariant(&*self);
            lemma_remove_el_props(self@, value@);
        }
        let n = sv_len(self.raw());
        let mut items = sv_new();
        let mut removed = false;
        let mut i: usize = 0;
        while i < n
            invariant
                n == self@.len(),
            0 <= i <= n,
            removed ==> self@.take(i as int).contains(value@) && sv_elems(items) == remove_el(
                self@.take(i as int),
                value@,
            ),
            !removed ==> !self@.take(i as int).contains(value@) && sv_elems(items) == self@.take(
                i as int,
            ),
            decreases n - i,
        {
            proof {
                assert(self@.take(i as int + 1).drop_last() =~= self@.take(i as int));
                assert(self@.take(i as int + 1).last() == self@[i as int]);
            }
            let v = self.get(i);
            if !removed && v.eq_str(value.as_str()) {
                removed = true;
            } else {
                let c = v.clone();
                sv_push(&mut items, c);
                proof {
                    if !removed {
                        assert(sv_elems(items) =~= self@.take(i as int + 1));
                    }
                }
            }
            i = i + 1;
        }
        proof {
            assert(self@.take(n as int) =~= self@);
            lemma_canonical_join(self@, self@, remove_el(self@, value@));
        }
        Flags::from_raw(items)
    }

    /// Difference by another set: every right element removes its equal
    /// from the left set, one after the other.
    pub fn difference(&self, other: &Flags) -> (r: Flags)
        ensures
            r@ == diff_els(self@, other@),
    {
        let n = other.len();
        let mut r = self.clone();
        let mut i: usize = 0;
        while i < n
            invariant
                n == other@.len(),
            0 <= i <= n,
            r@ == diff_els(self@, other@.take(i as int)),
            decreases n - i,
        {
            proof {
                assert(other@.take(i as int + 1).drop_last() =~= other@.take(i as int));
                assert(other@.take(i as int + 1).last() == other@[i as int]);
            }
            let v = other.get(i);
            let c = v.clone();
            r = r.difference_one(c);
            i = i + 1;
        }
        proof {
            assert(other@.take(n as int) =~= other@);
        }
        r
    }

    /// Intersection with one value: the singleton holding the value when an
    /// equal element is present, the empty set otherwise.
    pub fn intersect_one(&self, value: Variant) -> (r: Flags)
        ensures
            r@ == inter_one_els(self@, value@),
    {
        if self.contains_str(value.as_str()) {
            Flags::new(value)
        } else {
            Flags::empty()
        }
    }

    /// Intersection with another set: the left elements that the right set
    /// also holds, in the left set's order.
    pub fn intersect(&self, other: &Flags) -> (r: Flags)
        ensures
            r@ == inter_els(self@, other@),
    {
        proof {
            use_type_invariant(&*self);
            lemma_inter_els_props(self@, other@);
        }
        let n = sv_len(self.raw());
        let mut items = sv_new();
        let mut i: usize = 0;
        while i < n
            invariant
                n == self@.len(),
            0 <= i <= n,
            sv_elems(items) == inter_els(self@.take(i as int), other@),
            decreases n - i,
        {
            proof {
                assert(self@.take(i as int + 1).drop_last() =~= self@.take(i as int));
                assert(self@.take(i as int + 1).last() == self@[i as int]);
            }
            let v = self.get(i);
            if store_has(other.raw(), v.as_str()) {
                let c = v.clone();
                sv_push(&mut items, c);
            }
            i = i + 1;
        }
        proof {
            assert(self@.take(n as int) =~= self@);
            lemma_canonical_join(self@, self@, inter_els(self@, other@));
        }
        Flags::from_raw(items)
    }

    /// Symmetric difference with one value, the toggle: the value is removed
    /// when present and appended when absent.
    pub fn symmetric_difference_one(&self, value: Variant) -> (r: Flags)
        ensures
            r@ == toggle_el(self@, value@),
    {
        proof {
            use_type_invariant(&*self);
            use_type_invariant(&value);
            lemma_toggle_el_props(self@, value@);
        }
        if self.contains_str(value.as_str()) {
            self.difference_one(value)
        } else {
            let mut items = copy_store(self.raw());
            sv_push(&mut items, value);
            proof {
                lemma_canonical_join(self@, seq![value@], toggle_el(self@, value@));
            }
            Flags::from_raw(items)
        }
    }

    /// Symmetric difference with another set: every right element toggles
    /// the left set in turn, so exactly the elements held by one side and
    /// not the other remain.
    pub fn symmetric_difference(&self, other: &Flags) -> (r: Flags)
        ensures
            r@ == xor_els(self@, other@),
    {
        let n = other.len();
        let mut r = self.clone();
        let mut i: usize = 0;
        while i < n
            invariant
                n == other@.len(),
            0 <= i <= n,
            r@ == xor_els(self@, other@.take(i as int)),
            decreases n - i,
        {
            proof {
                assert(other@.take(i as int + 1).drop_last() =~= other@.take(i as int));
                assert(other@.take(i as int + 1).last() == other@[i as int]);
            }
            let v = other.get(i);
            let c = v.clone();
            r = r.symmetric_difference_one(c);
            i = i + 1;
        }
        proof {
            assert(other@.take(n as int) =~= other@);
        }
        r
    }

    /// In-place union with one value; same result as [`Flags::union_one`]
    /// on a fresh copy.
    pub fn union_one_assign(&mut self, value: Variant)
        ensures
            final(self)@ == insert_el(old(self)@, value@),
    {
        let r = Flags::union_one(&*self, value);
        *self = r;
    }

    /// In-place union with another set; same result as [`Flags::union`].
    pub fn union_assign(&mut self, other: &Flags)
        ensures
            final(self)@ == union_els(old(self)@, other@),
    {
        let r = Flags::union(&*self, other);
        *self = r;
    }

    /// In-place difference by one value; same result as
    /// [`Flags::difference_one`].
    pub fn difference_one_assign(&mut self, value: Variant)
        ensures
            final(self)@ == remove_el(old(self)@, value@),
    {
        let r = Flags::difference_one(&*self, value);
        *self = r;
    }

    /// In-place difference by another set; same result as
    /// [`Flags::difference`].
    pub fn difference_assign(&mut self, other: &Flags)
        ensures
            final(self)@ == diff_els(old(self)@, other@),
    {
        let r = Flags::difference(&*self, other);
        *self = r;
    }

    /// In-place intersection with one value: the receiver is rebuilt as the
    /// singleton or as the empty set; same result as
    /// [`Flags::intersect_one`].
    pub fn intersect_one_assign(&mut self, value: Variant)
        ensures
            final(self)@ == inter_one_els(old(self)@, value@),
    {
        let r = Flags::intersect_one(&*self, value);
        *self = r;
    }

    /// In-place intersection with another set; same result as
    /// [`Flags::intersect`].
    pub fn intersect_assign(&mut self, other: &Flags)
        ensures
            final(self)@ == inter_els(old(self)@, other@),
    {
        let r = Flags::intersect(&*self, other);
        *self = r;
    }

    /// In-place toggle of one value; same result as
    /// [`Flags::symmetric_difference_one`].
    pub fn symmetric_difference_one_assign(&mut self, value: Variant)
        ensures
            final(self)@ == toggle_el(old(self)@, value@),
    {
        let r = Flags::symmetric_difference_one(&*self, value);
        *self = r;
    }

    /// In-place symmetric difference with another set; same result as
    /// [`Flags::symmetric_difference`].
    pub fn symmetric_difference_assign(&mut self, other: &Flags)
        ensures
            final(self)@ == xor_els(old(self)@, other@),
    {
        let r = Flags::symmetric_difference(&*self, other);
        *self = r;
    }
}

} // verus!
