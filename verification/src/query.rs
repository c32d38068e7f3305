//! The polymorphic membership source: any shape that can be viewed as a
//! finite, restartable sequence of borrowed string slices. Membership tests
//! accept a single text-like value or a batch of them uniformly through this
//! capability.

use crate::set::Flags;
use crate::variant::Variant;
use vstd::prelude::*;

verus! {

/// Values usable in [`Flags::contains`](crate::Flags::contains): a query
/// yields a finite sequence of borrowed string slices, one per logical
/// element, restartable on each call and allocating nothing. A single
/// text-like value yields itself alone; a collection yields one slice per
/// contained item, in its own order. No case conversion happens here: the
/// caller hands in flat-lowercase text.
pub trait Query {
    /// The texts this query yields, in order.
    spec fn items_view(&self) -> Seq<Seq<char>>;

    /// How many items the query yields.
    fn item_count(&self) -> (n: usize)
        ensures
            n == self.items_view().len(),
    ;

    /// The `i`-th yielded item, borrowed from existing storage.
    fn item_at(&self, i: usize) -> (s: &str)
        requires
            i < self.items_view().len(),
        ensures
            s@ == self.items_view()[i as int],
    ;
}

impl Query for Variant {
    open spec fn items_view(&self) -> Seq<Seq<char>> {
        seq![self@]
    }

    fn item_count(&self) -> (n: usize) {
        1
    }

    fn item_at(&self, i: usize) -> (s: &str) {
        self.as_str()
    }
}

impl Query for &Variant {
    open spec fn items_view(&self) -> Seq<Seq<char>> {
        seq![(**self)@]
    }

    fn item_count(&self) -> (n: usize) {
        1
    }

    fn item_at(&self, i: usize) -> (s: &str) {
        (*self).as_str()
    }
}

impl Query for &str {
    open spec fn items_view(&self) -> Seq<Seq<char>> {
        seq![(*self)@]
    }

    fn item_count(&self) -> (n: usize) {
        1
    }

    fn item_at(&self, i: usize) -> (s: &str) {
        *self
    }
}

impl Query for String {
    open spec fn items_view(&self) -> Seq<Seq<char>> {
        seq![self@]
    }

    fn item_count(&self) -> (n: usize) {
        1
    }

    fn item_at(&self, i: usize) -> (s: &str) {
        self.as_str()
    }
}

impl Query for Vec<Variant> {
    open spec fn items_view(&self) -> Seq<Seq<char>> {
        self@.map_values(|v: Variant| v@)
    }

    fn item_count(&self) -> (n: usize) {
        self.len()
    }

    fn item_at(&self, i: usize) -> (s: &str) {
        let v = &self[i];
        v.as_str()
    }
}

impl Query for Flags {
    open spec fn items_view(&self) -> Seq<Seq<char>> {
        (*self)@
    }

    fn item_count(&self) -> (n: usize) {
        self.len()
    }

    fn item_at(&self, i: usize) -> (s: &str) {
        self.get(i).as_str()
    }
}

impl Query for &Flags {
    open spec fn items_view(&self) -> Seq<Seq<char>> {
        (**self)@
    }

    fn item_count(&self) -> (n: usize) {
        (*self).len()
    }

    fn item_at(&self, i: usize) -> (s: &str) {
        (*self).get(i).as_str()
    }
}

} // verus!
