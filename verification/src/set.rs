//! The flag set: a small, order-insensitive, deduplicated collection of
//! variants. Its view is the sequence of its elements' canonical texts in
//! storage order; the type invariant keeps the elements pairwise distinct
//! and canonical.

use crate::elems::all_canonical;
use crate::elems::distinct_els;
use crate::query::Query;
use crate::storage::Store;
use crate::storage::sv_elems;
use crate::storage::sv_get;
use crate::storage::sv_len;
use crate::storage::sv_new;
use crate::storage::sv_push;
use crate::variant::Variant;
use vstd::prelude::*;

verus! {

broadcast use vstd::seq_lib::group_seq_properties;

/// Marker registering a string-enum type as eligible for flag-set use: the
/// capability a code generator grants when "flags" behaviour, not just
/// "enum" behaviour, is requested.
pub trait FlagsMarker {

}

impl FlagsMarker for Variant {

}

/// A set of string-enum values: zero or more [`Variant`]s, deduplicated by
/// exact canonical-text equality, in a small inline-optimized store. Order
/// of storage is stable within one set but carries no meaning; only
/// membership does.
pub struct Flags {
    items: Store,
}

impl View for Flags {
    type V = Seq<Seq<char>>;

    closed spec fn view(&self) -> Seq<Seq<char>> {
        sv_elems(self.items)
    }
}

/// Whether any text yielded by a query occurs among the elements.
pub open spec fn any_hit(els: Seq<Seq<char>>, queried: Seq<Seq<char>>) -> bool {
    exists|i: int| 0 <= i < queried.len() && els.contains(#[trigger] queried[i])
}

/// Membership of a single text among a store's elements, by exact equality.
pub(crate) fn store_has(v: &Store, s: &str) -> (r: bool)
    ensures
        r == sv_elems(*v).contains(s@),
{
    let n = sv_len(v);
    let mut i: usize = 0;
    while i < n
        invariant
            n == sv_elems(*v).len(),
            0 <= i <= n,
            forall|k: int| 0 <= k < i ==> sv_elems(*v)[k] != s@,
        decreases n - i,
    {
        let e = sv_get(v, i);
        if e.eq_str(s) {
            proof {
                assert(sv_elems(*v)[i as int] == s@);
            }
            return true;
        }
        i = i + 1;
    }
    proof {
        if sv_elems(*v).contains(s@) {
            let k = choose|k: int| 0 <= k < sv_elems(*v).len() && sv_elems(*v)[k] == s@;
            assert(false);
        }
    }
    false
}

impl Flags {
    /// Elements pairwise distinct (the dedup invariant) and each canonical.
    #[verifier::type_invariant]
    pub open spec fn inv(self) -> bool {
        distinct_els(self@) && all_canonical(self@)
    }

    /// The zero-element set.
    pub fn empty() -> (r: Flags)
        ensures
            r@ == Seq::<Seq<char>>::empty(),
    {
        Flags { items: sv_new() }
    }

    /// The one-element set holding `value`.
    pub fn new(value: Variant) -> (r: Flags)
        ensures
            r@ == seq![value@],
    {
        proof {
            use_type_invariant(&value);
        }
        let mut items = sv_new();
        sv_push(&mut items, value);
        proof {
            assert(sv_elems(items) =~= seq![value@]);
        }
        Flags { items }
    }

    /// The set of two values; when they are equal it collapses to a
    /// singleton, preserving the dedup invariant at construction.
    pub fn pair(value1: Variant, value2: Variant) -> (r: Flags)
        ensures
            r@ == (if value1@ == value2@ {
                seq![value1@]
            } else {
                seq![value1@, value2@]
            }),
    {
        proof {
            use_type_invariant(&value1);
            use_type_invariant(&value2);
        }
        if value1 == value2 {
            Flags::new(value1)
        } else {
            let mut items = sv_new();
            sv_push(&mut items, value1);
            sv_push(&mut items, value2);
            proof {
                assert(sv_elems(items) =~= seq![value1@, value2@]);
            }
            Flags { items }
        }
    }

    /// How many elements the set holds.
    pub fn len(&self) -> (n: usize)
        ensures
            n == self@.len(),
    {
        sv_len(&self.items)
    }

    /// True when the set holds at least one element.
    pub fn is_some(&self) -> (r: bool)
        ensures
            r == (self@.len() > 0),
    {
        sv_len(&self.items) > 0
    }

    /// True when the set is empty.
    pub fn is_none(&self) -> (r: bool)
        ensures
            r == (self@.len() == 0),
    {
        sv_len(&self.items) == 0
    }

    /// Element `i` in storage order, borrowed.
    pub fn get(&self, i: usize) -> (r: &Variant)
        requires
            i < self@.len(),
        ensures
            r@ == self@[i as int],
    {
        sv_get(&self.items, i)
    }

    /// Membership of a single raw text among the elements, by exact
    /// canonical-text equality.
    pub fn contains_str(&self, s: &str) -> (r: bool)
        ensures
            r == self@.contains(s@),
    {
        store_has(&self.items, s)
    }

    /// Membership test against anything that can be queried: true exactly
    /// when some text yielded by the query equals some element. A single
    /// value queries itself; a batch succeeds if any of its items is held.
    pub fn contains<Q: Query>(&self, query: Q) -> (r: bool)
        ensures
            r == any_hit(self@, query.items_view()),
    {
        let n = query.item_count();
        let mut i: usize = 0;
        while i < n
            invariant
                n == query.items_view().len(),
            0 <= i <= n,
            forall|k: int| 0 <= k < i ==> !self@.contains(#[trigger] query.items_view()[k]),
            decreases n - i,
        {
            let s = query.item_at(i);
            if store_has(&self.items, s) {
                return true;
            }
            i = i + 1;
        }
        false
    }

    /// Crate-internal: the backing store, for the operator implementations.
    pub(crate) fn raw(&self) -> (r: &Store)
        ensures
            sv_elems(*r) == self@,
    {
        &self.items
    }

    /// Crate-internal: wraps a store whose contents already satisfy the
    /// invariant.
    pub(crate) fn from_raw(items: Store) -> (r: Flags)
        requires
            distinct_els(sv_elems(items)),
            all_canonical(sv_elems(items)),
        ensures
            r@ == sv_elems(items),
    {
        Flags { items }
    }
}

impl Clone for Flags {
    /// An independent copy holding equal elements in the same order.
    fn clone(&self) -> (r: Self)
        ensures
            r@ == self@,
    {
        proof {
            use_type_invariant(&*self);
        }
        let n = sv_len(&self.items);
        let mut items = sv_new();
        let mut i: usize = 0;
        while i < n
            invariant
                n == self@.len(),
                0 <= i <= n,
                sv_elems(items) == self@.take(i as int),
            decreases n - i,
        {
            let v = sv_get(&self.items, i);
            let c = v.clone();
            sv_push(&mut items, c);
            proof {
                assert(sv_elems(items) =~= self@.take(i as int + 1));
            }
            i = i + 1;
        }
        proof {
            use_type_invariant(&*self);
            assert(self@.take(n as int) =~= self@);
        }
        Flags { items }
    }
}

impl Default for Flags {
    /// The empty set.
    fn default() -> (r: Self)
        ensures
            r@ == Seq::<Seq<char>>::empty(),
    {
        Flags::empty()
    }
}

impl PartialEq for Flags {
    /// The equality rule between two flag sets, reproduced deliberately:
    /// two sets compare equal when their lengths agree, or when every left
    /// element is found on the right. Note that this is weaker than true
    /// set equality and is not symmetric: two same-length sets compare
    /// equal whatever they hold. Callers needing exact set equality should
    /// compare lengths and membership both ways.
    fn eq(&self, other: &Self) -> (r: bool) {
        let n = self.len();
        if n == other.len() {
            return true;
        }
        let mut i: usize = 0;
        while i < n
            invariant
                n == self@.len(),
            self@.len() != other@.len(),
            0 <= i <= n,
            forall|k: int| 0 <= k < i ==> other@.contains(#[trigger] self@[k]),
            decreases n - i,
        {
            let v = self.get(i);
            if !store_has(other.raw(), v.as_str()) {
                proof {
                    assert(!other@.contains(self@[i as int]));
                }
                return false;
            }
            i = i + 1;
        }
        true
    }
}

impl vstd::std_specs::cmp::PartialEqSpecImpl for Flags {
    open spec fn obeys_eq_spec() -> bool {
        true
    }

    open spec fn eq_spec(&self, other: &Self) -> bool {
        crate::elems::weak_eq_els(self@, other@)
    }
}

} // verus!
