//! The mathematical model of a flag set: a sequence of canonical texts in
//! storage order, with the set-algebra operations defined on it. Every
//! executable operation on [`crate::Flags`] is specified against these
//! functions.

use crate::canon::is_canonical;
use vstd::prelude::*;

verus! {

broadcast use vstd::seq_lib::group_seq_properties;

/// No two elements are equal: the dedup invariant of a flag set.
pub open spec fn distinct_els(a: Seq<Seq<char>>) -> bool {
    forall|i: int, j: int| 0 <= i < j < a.len() ==> a[i] != a[j]
}

/// Every element is in canonical flat-lowercase form.
pub open spec fn all_canonical(a: Seq<Seq<char>>) -> bool {
    forall|i: int| 0 <= i < a.len() ==> is_canonical(#[trigger] a[i])
}

/// Union with a single element: appended at the end unless already present.
pub open spec fn insert_el(a: Seq<Seq<char>>, x: Seq<char>) -> Seq<Seq<char>> {
    if a.contains(x) {
        a
    } else {
        a.push(x)
    }
}

/// Union with another set: its elements are inserted in order, left to right.
pub open spec fn union_els(a: Seq<Seq<char>>, b: Seq<Seq<char>>) -> Seq<Seq<char>>
    decreases b.len(),
{
    if b.len() == 0 {
        a
    } else {
        insert_el(union_els(a, b.drop_last()), b.last())
    }
}

/// Difference by a single element: the first occurrence of `x` (the only
/// one, in a deduplicated set) is removed; without one, the set is unchanged.
pub open spec fn remove_el(a: Seq<Seq<char>>, x: Seq<char>) -> Seq<Seq<char>>
    decreases a.len(),
{
    if a.len() == 0 {
        a
    } else if a.drop_last().contains(x) {
        remove_el(a.drop_last(), x).push(a.last())
    } else if a.last() == x {
        a.drop_last()
    } else {
        a
    }
}

/// Difference by another set: each of its elements is removed in turn.
pub open spec fn diff_els(a: Seq<Seq<char>>, b: Seq<Seq<char>>) -> Seq<Seq<char>>
    decreases b.len(),
{
    if b.len() == 0 {
        a
    } else {
        remove_el(diff_els(a, b.drop_last()), b.last())
    }
}

/// Symmetric difference with a single element: removed if present, appended
/// if absent.
pub open spec fn toggle_el(a: Seq<Seq<char>>, x: Seq<char>) -> Seq<Seq<char>> {
    if a.contains(x) {
        remove_el(a, x)
    } else {
        a.push(x)
    }
}

/// Symmetric difference with another set: each of its elements toggles the
/// left set in turn.
pub open spec fn xor_els(a: Seq<Seq<char>>, b: Seq<Seq<char>>) -> Seq<Seq<char>>
    decreases b.len(),
{
    if b.len() == 0 {
        a
    } else {
        toggle_el(xor_els(a, b.drop_last()), b.last())
    }
}

/// Intersection with another set: the elements of the left set that the
/// right set also holds, in the left set's order.
pub open spec fn inter_els(a: Seq<Seq<char>>, b: Seq<Seq<char>>) -> Seq<Seq<char>>
    decreases a.len(),
{
    if a.len() == 0 {
        a
    } else if b.contains(a.last()) {
        inter_els(a.drop_last(), b).push(a.last())
    } else {
        inter_els(a.drop_last(), b)
    }
}

/// Intersection with a single element: the singleton if present, else empty.
pub open spec fn inter_one_els(a: Seq<Seq<char>>, x: Seq<char>) -> Seq<Seq<char>> {
    if a.contains(x) {
        seq![x]
    } else {
        Seq::<Seq<char>>::empty()
    }
}

/// The equality rule between two flag sets, reproduced deliberately from the
/// behaviour this library commits to: the two are "equal" when their lengths
/// agree, or when every left element is found on the right. This is weaker
/// than set equality and not symmetric; see the doc of
/// [`crate::Flags`]'s `PartialEq`.
pub open spec fn weak_eq_els(a: Seq<Seq<char>>, b: Seq<Seq<char>>) -> bool {
    a.len() == b.len() || (forall|i: int| 0 <= i < a.len() ==> b.contains(#[trigger] a[i]))
}

/// What inserting one element does: membership grows by exactly `x`, the
/// dedup invariant is preserved, and the length grows only on a new element.
pub proof fn lemma_insert_el_props(a: Seq<Seq<char>>, x: Seq<char>)
    ensures
        forall|y: Seq<char>| #[trigger] insert_el(a, x).contains(y) <==> (a.contains(y) || y == x),
        distinct_els(a) ==> distinct_els(insert_el(a, x)),
        a.contains(x) ==> insert_el(a, x) == a,
        !a.contains(x) ==> insert_el(a, x).len() == a.len() + 1,
{
    if !a.contains(x) {
        assert(distinct_els(a) ==> distinct_els(a.push(x))) by {
            if distinct_els(a) {
                assert forall|i: int, j: int|
                    0 <= i < j < a.push(x).len() implies a.push(x)[i] != a.push(x)[j] by {
                    if j < a.len() {
                        assert(a[i] != a[j]);
                    } else {
                        assert(a.contains(a[i]));
                    }
                }
            }
        }
    }
}

/// What the union of two sets holds: an element of either side and nothing
/// else, with the dedup invariant preserved.
pub proof fn lemma_union_els_props(a: Seq<Seq<char>>, b: Seq<Seq<char>>)
    ensures
        forall|y: Seq<char>| #[trigger]
            union_els(a, b).contains(y) <==> (a.contains(y) || b.contains(y)),
        distinct_els(a) ==> distinct_els(union_els(a, b)),
    decreases b.len(),
{
    if b.len() == 0 {
    } else {
        lemma_union_els_props(a, b.drop_last());
        lemma_insert_el_props(union_els(a, b.drop_last()), b.last());
        assert(b =~= b.drop_last().push(b.last()));
    }
}

/// A set all of whose elements lie in a deduplicated set is unchanged by a
/// union with it.
pub proof fn lemma_union_els_subset(a: Seq<Seq<char>>, b: Seq<Seq<char>>)
    requires
        forall|y: Seq<char>| #[trigger] b.contains(y) ==> a.contains(y),
    ensures
        union_els(a, b) == a,
    decreases b.len(),
{
    if b.len() == 0 {
    } else {
        assert(b =~= b.drop_last().push(b.last()));
        assert(forall|y: Seq<char>| #[trigger] b.drop_last().contains(y) ==> b.contains(y));
        lemma_union_els_subset(a, b.drop_last());
        assert(b.contains(b.last()));
    }
}

/// What removing one element does: at most that element disappears; in a
/// deduplicated set, exactly the element `x` disappears and nothing else.
pub proof fn lemma_remove_el_props(a: Seq<Seq<char>>, x: Seq<char>)
    ensures
        forall|y: Seq<char>| #[trigger] remove_el(a, x).contains(y) ==> a.contains(y),
        !a.contains(x) ==> remove_el(a, x) == a,
        a.contains(x) ==> remove_el(a, x).len() == a.len() - 1,
        distinct_els(a) ==> distinct_els(remove_el(a, x)),
        distinct_els(a) ==> (forall|y: Seq<char>| #[trigger]
            remove_el(a, x).contains(y) <==> (a.contains(y) && y != x)),
    decreases a.len(),
{
    if a.len() == 0 {
        assert(forall|y: Seq<char>| !a.contains(y));
        assert(remove_el(a, x) =~= a);
    } else {
        let d = a.drop_last();
        let l = a.last();
        assert(a =~= d.push(l));
        assert(distinct_els(a) ==> distinct_els(d)) by {
            if distinct_els(a) {
                assert forall|i: int, j: int| 0 <= i < j < d.len() implies d[i] != d[j] by {
                    assert(a[i] == d[i] && a[j] == d[j]);
                }
            }
        }
        lemma_remove_el_props(d, x);
        if d.contains(x) {
            assert(a.contains(x));
            if distinct_els(a) {
                // the last element occurs nowhere earlier
                assert(!d.contains(l)) by {
                    if d.contains(l) {
                        let i = choose|i: int| 0 <= i < d.len() && d[i] == l;
                        assert(a[i] == a[a.len() - 1]);
                    }
                }
                assert(l != x);
                assert(!remove_el(d, x).contains(l));
                assert(distinct_els(remove_el(d, x).push(l))) by {
                    let r = remove_el(d, x);
                    assert forall|i: int, j: int|
                        0 <= i < j < r.push(l).len() implies r.push(l)[i] != r.push(l)[j] by {
                        if j < r.len() {
                            assert(r[i] != r[j]);
                        } else {
                            assert(r.contains(r[i]));
                        }
                    }
                }
            }
        } else if l == x {
            assert(a.contains(x));
        } else {
            assert(!a.contains(x));
        }
    }
}

/// What toggling one element does: membership of `x` flips, everything else
/// stays, and the dedup invariant is preserved.
pub proof fn lemma_toggle_el_props(a: Seq<Seq<char>>, x: Seq<char>)
    ensures
        forall|y: Seq<char>| #[trigger] toggle_el(a, x).contains(y) ==> (a.contains(y) || y == x),
        distinct_els(a) ==> distinct_els(toggle_el(a, x)),
        distinct_els(a) ==> (forall|y: Seq<char>| #[trigger]
            toggle_el(a, x).contains(y) <==> (if y == x {
                !a.contains(x)
            } else {
                a.contains(y)
            })),
    decreases a.len(),
{
    lemma_remove_el_props(a, x);
    if !a.contains(x) {
        lemma_insert_el_props(a, x);
        assert(toggle_el(a, x) == insert_el(a, x));
    }
}

/// What the difference of two sets holds: elements of the left set only; in
/// a deduplicated left set, exactly those not on the right.
pub proof fn lemma_diff_els_props(a: Seq<Seq<char>>, b: Seq<Seq<char>>)
    ensures
        forall|y: Seq<char>| #[trigger] diff_els(a, b).contains(y) ==> a.contains(y),
        distinct_els(a) ==> distinct_els(diff_els(a, b)),
        distinct_els(a) ==> (forall|y: Seq<char>| #[trigger]
            diff_els(a, b).contains(y) <==> (a.contains(y) && !b.contains(y))),
    decreases b.len(),
{
    if b.len() == 0 {
        assert(forall|y: Seq<char>| !b.contains(y));
    } else {
        lemma_diff_els_props(a, b.drop_last());
        lemma_remove_el_props(diff_els(a, b.drop_last()), b.last());
        assert(b =~= b.drop_last().push(b.last()));
    }
}

/// What the symmetric difference of two sets holds: elements of either side;
/// with both sides deduplicated, exactly the elements of one side and not
/// the other.
pub proof fn lemma_xor_els_props(a: Seq<Seq<char>>, b: Seq<Seq<char>>)
    requires
        distinct_els(b),
    ensures
        forall|y: Seq<char>| #[trigger]
            xor_els(a, b).contains(y) ==> (a.contains(y) || b.contains(y)),
        distinct_els(a) ==> distinct_els(xor_els(a, b)),
        distinct_els(a) ==> (forall|y: Seq<char>| #[trigger]
            xor_els(a, b).contains(y) <==> (a.contains(y) != b.contains(y))),
    decreases b.len(),
{
    if b.len() == 0 {
        assert(forall|y: Seq<char>| !b.contains(y));
    } else {
        let d = b.drop_last();
        let l = b.last();
        assert(b =~= d.push(l));
        assert(distinct_els(d)) by {
            assert forall|i: int, j: int| 0 <= i < j < d.len() implies d[i] != d[j] by {
                assert(b[i] == d[i] && b[j] == d[j]);
            }
        }
        assert(!d.contains(l)) by {
            if d.contains(l) {
                let i = choose|i: int| 0 <= i < d.len() && d[i] == l;
                assert(b[i] == b[b.len() - 1]);
            }
        }
        lemma_xor_els_props(a, d);
        lemma_toggle_el_props(xor_els(a, d), l);
    }
}

/// What the intersection of two sets holds: exactly the common elements,
/// with the dedup invariant of the left side preserved.
pub proof fn lemma_inter_els_props(a: Seq<Seq<char>>, b: Seq<Seq<char>>)
    ensures
        forall|y: Seq<char>| #[trigger]
            inter_els(a, b).contains(y) <==> (a.contains(y) && b.contains(y)),
        distinct_els(a) ==> distinct_els(inter_els(a, b)),
    decreases a.len(),
{
    if a.len() == 0 {
        assert(forall|y: Seq<char>| !a.contains(y));
        assert(inter_els(a, b) =~= a);
    } else {
        let d = a.drop_last();
        let l = a.last();
        assert(a =~= d.push(l));
        assert(distinct_els(a) ==> distinct_els(d)) by {
            if distinct_els(a) {
                assert forall|i: int, j: int| 0 <= i < j < d.len() implies d[i] != d[j] by {
                    assert(a[i] == d[i] && a[j] == d[j]);
                }
            }
        }
        lemma_inter_els_props(d, b);
        if b.contains(l) {
            let r = inter_els(d, b);
            if distinct_els(a) {
                assert(!d.contains(l)) by {
                    if d.contains(l) {
                        let i = choose|i: int| 0 <= i < d.len() && d[i] == l;
                        assert(a[i] == a[a.len() - 1]);
                    }
                }
                assert(!r.contains(l));
                assert(distinct_els(r.push(l))) by {
                    assert forall|i: int, j: int|
                        0 <= i < j < r.push(l).len() implies r.push(l)[i] != r.push(l)[j] by {
                        if j < r.len() {
                            assert(r[i] != r[j]);
                        } else {
                            assert(r.contains(r[i]));
                        }
                    }
                }
            }
        }
    }
}

/// Elements drawn from two canonical sets are canonical.
pub proof fn lemma_canonical_join(a: Seq<Seq<char>>, b: Seq<Seq<char>>, r: Seq<Seq<char>>)
    requires
        all_canonical(a),
        all_canonical(b),
        forall|y: Seq<char>| #[trigger] r.contains(y) ==> (a.contains(y) || b.contains(y)),
    ensures
        all_canonical(r),
{
    assert forall|i: int| 0 <= i < r.len() implies is_canonical(#[trigger] r[i]) by {
        assert(r.contains(r[i]));
        if a.contains(r[i]) {
            let j = choose|j: int| 0 <= j < a.len() && a[j] == r[i];
            assert(is_canonical(a[j]));
        } else {
            let j = choose|j: int| 0 <= j < b.len() && b[j] == r[i];
            assert(is_canonical(b[j]));
        }
    }
}

} // verus!
