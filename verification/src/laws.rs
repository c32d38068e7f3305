//! The general laws this library commits to, stated over the model
//! functions that the executable contracts use, and proved here once and
//! for all.

use crate::canon::flat_of;
use crate::elems::all_canonical;
use crate::elems::distinct_els;
use crate::elems::insert_el;
use crate::elems::inter_els;
use crate::elems::lemma_inter_els_props;
use crate::elems::lemma_union_els_props;
use crate::elems::lemma_union_els_subset;
use crate::elems::union_els;
use crate::elems::weak_eq_els;
use crate::serial::canon_all;
use crate::serial::dedup_els;
use crate::serial::join_els;
use crate::serial::lemma_canon_all_id;
use crate::serial::lemma_dedup_els_id;
use crate::serial::lemma_split_join;
use crate::serial::split_els;
use crate::set::any_hit;
use crate::spec_possible_typo;
use vstd::prelude::*;

verus! {

broadcast use vstd::seq_lib::group_seq_properties;

/// A singleton set holds one element, and a membership query for that very
/// element succeeds: for every variant text `x`, the set built from it
/// alone has length one and contains it.
pub proof fn lemma_singleton_contains(x: Seq<char>)
    ensures
        seq![x].len() == 1,
        any_hit(seq![x], seq![x]),
{
    assert(seq![x].contains(x));
    assert(seq![x][0] == x);
}

/// Duplicates are never introduced: inserting an element into the singleton
/// already holding it leaves one element, exactly as building a pair from
/// two equal values collapses to the singleton.
pub proof fn lemma_dedup_singleton(x: Seq<char>)
    ensures
        insert_el(seq![x], x).len() == 1,
        seq![x].len() == 1,
{
    assert(seq![x].contains(x));
}

/// Union is commutative up to the library's set equality: the union of two
/// sets, taken in either order, compares equal both ways, since each union
/// holds exactly the elements of the two sides.
pub proof fn lemma_union_commutative(a: Seq<Seq<char>>, b: Seq<Seq<char>>)
    ensures
        weak_eq_els(union_els(a, b), union_els(b, a)),
        weak_eq_els(union_els(b, a), union_els(a, b)),
{
    lemma_union_els_props(a, b);
    lemma_union_els_props(b, a);
    assert(forall|i: int|
        0 <= i < union_els(a, b).len() ==> union_els(b, a).contains(
            #[trigger] union_els(a, b)[i],
        )) by {
        assert(forall|i: int|
            0 <= i < union_els(a, b).len() ==> union_els(a, b).contains(
                #[trigger] union_els(a, b)[i],
            ));
    }
    assert(forall|i: int|
        0 <= i < union_els(b, a).len() ==> union_els(a, b).contains(
            #[trigger] union_els(b, a)[i],
        )) by {
        assert(forall|i: int|
            0 <= i < union_els(b, a).len() ==> union_els(b, a).contains(
                #[trigger] union_els(b, a)[i],
            ));
    }
}

/// Union is idempotent: a set united with itself is unchanged, not merely
/// equal under the library's set equality.
pub proof fn lemma_union_idempotent(a: Seq<Seq<char>>)
    ensures
        union_els(a, a) == a,
{
    lemma_union_els_subset(a, a);
}

/// Intersection distributes membership correctly: the intersection of two
/// sets holds an element exactly when both sides do.
pub proof fn lemma_intersection_membership(a: Seq<Seq<char>>, b: Seq<Seq<char>>)
    ensures
        forall|y: Seq<char>| #[trigger]
            inter_els(a, b).contains(y) <==> (a.contains(y) && b.contains(y)),
{
    lemma_inter_els_props(a, b);
}

/// Text round trip: any non-empty set of distinct, canonical elements, none
/// of which holds the separator, parses back from its own rendering to
/// exactly itself.
pub proof fn lemma_text_round_trip(v: Seq<Seq<char>>, sep: char)
    requires
        v.len() >= 1,
        distinct_els(v),
        all_canonical(v),
        forall|i: int| 0 <= i < v.len() ==> !(#[trigger] v[i]).contains(sep),
    ensures
        dedup_els(canon_all(split_els(join_els(v, sep), sep))) == v,
{
    lemma_split_join(v, sep);
    lemma_canon_all_id(v);
    lemma_dedup_els_id(v);
}

/// The minimum-length gate of the similarity diagnostic: whatever the
/// ratio, a comparison where either string has three characters or fewer
/// never triggers the advisory signal.
pub proof fn lemma_minimum_length_gate(a: Seq<char>, b: Seq<char>, ratio: int)
    requires
        a.len() <= 3 || b.len() <= 3,
    ensures
        !spec_possible_typo(a, b, ratio),
{
}

} // verus!
