//! Canonical text round-tripping of a flag set: elements joined by a single
//! separator character, no leading or trailing separator, the empty set
//! rendering as the empty string; and parsing back, each piece normalized
//! independently and inserted with the dedup invariant preserved.

use crate::canon::flat_of;
use crate::canon::is_canonical;
use crate::elems::all_canonical;
use crate::elems::distinct_els;
use crate::elems::insert_el;
use crate::set::Flags;
use crate::variant::Variant;
use vstd::prelude::*;

verus! {

broadcast use vstd::seq_lib::group_seq_properties;

/// The index of the first occurrence of `sep`, or -1 when there is none.
pub open spec fn find_sep(s: Seq<char>, sep: char) -> int
    decreases s.len(),
{
    if s.len() == 0 {
        -1
    } else if s[0] == sep {
        0
    } else {
        let r = find_sep(s.skip(1), sep);
        if r == -1 {
            -1
        } else {
            r + 1
        }
    }
}

/// Where the first separator sits: within bounds, on a separator, with none
/// before it; and -1 exactly when the text holds no separator at all.
pub proof fn lemma_find_sep_range(s: Seq<char>, sep: char)
    ensures
        -1 <= find_sep(s, sep) < s.len(),
        find_sep(s, sep) >= 0 ==> s[find_sep(s, sep)] == sep,
        find_sep(s, sep) >= 0 ==> forall|j: int| 0 <= j < find_sep(s, sep) ==> s[j] != sep,
        find_sep(s, sep) == -1 ==> forall|j: int| 0 <= j < s.len() ==> s[j] != sep,
    decreases s.len(),
{
    if s.len() == 0 {
    } else if s[0] == sep {
    } else {
        lemma_find_sep_range(s.skip(1), sep);
        assert(forall|j: int| 0 <= j < s.skip(1).len() ==> s.skip(1)[j] == s[j + 1]);
    }
}

/// The first separator is the separator position with nothing before it.
pub proof fn lemma_find_sep_at(s: Seq<char>, sep: char, k: int)
    requires
        0 <= k < s.len(),
        s[k] == sep,
        forall|j: int| 0 <= j < k ==> s[j] != sep,
    ensures
        find_sep(s, sep) == k,
{
    lemma_find_sep_range(s, sep);
    let f = find_sep(s, sep);
    if f == -1 {
        assert(s[k] != sep);
    } else if f < k {
        assert(s[f] != sep);
    } else if f > k {
        assert(s[k] != sep);
    }
}

/// A text with no separator has no first one.
pub proof fn lemma_find_sep_none(s: Seq<char>, sep: char)
    requires
        forall|j: int| 0 <= j < s.len() ==> s[j] != sep,
    ensures
        find_sep(s, sep) == -1,
{
    lemma_find_sep_range(s, sep);
    let f = find_sep(s, sep);
    if f >= 0 {
        assert(s[f] != sep);
    }
}

/// The pieces of a text split on a separator: always at least one piece;
/// splitting the empty text yields one empty piece.
pub open spec fn split_els(s: Seq<char>, sep: char) -> Seq<Seq<char>>
    decreases s.len(),
    via split_els_decreases
{
    let k = find_sep(s, sep);
    if k == -1 {
        seq![s]
    } else {
        seq![s.take(k)] + split_els(s.skip(k + 1), sep)
    }
}

#[via_fn]
proof fn split_els_decreases(s: Seq<char>, sep: char) {
    lemma_find_sep_range(s, sep);
}

/// Each piece put in canonical form, in order.
pub open spec fn canon_all(ps: Seq<Seq<char>>) -> Seq<Seq<char>>
    decreases ps.len(),
{
    if ps.len() == 0 {
        ps
    } else {
        canon_all(ps.drop_last()).push(flat_of(ps.last()))
    }
}

/// The pieces inserted left to right with duplicates dropped, preserving
/// the dedup invariant of a flag set.
pub open spec fn dedup_els(ps: Seq<Seq<char>>) -> Seq<Seq<char>>
    decreases ps.len(),
{
    if ps.len() == 0 {
        ps
    } else {
        insert_el(dedup_els(ps.drop_last()), ps.last())
    }
}

/// The elements joined by the separator: no leading or trailing separator,
/// the empty set rendering as the empty text.
pub open spec fn join_els(els: Seq<Seq<char>>, sep: char) -> Seq<char>
    decreases els.len(),
{
    if els.len() == 0 {
        Seq::<char>::empty()
    } else if els.len() == 1 {
        els[0]
    } else {
        join_els(els.drop_last(), sep) + seq![sep] + els.last()
    }
}

/// Relies on String::from for a char: the one-character string.
#[verifier::external_body]
fn char_string(c: char) -> (r: String)
    ensures
        r@ == seq![c],
{
    String::from(c)
}

/// Splitting after appending a separator and a separator-free tail yields
/// the old pieces plus the tail.
pub proof fn lemma_split_append(s: Seq<char>, y: Seq<char>, sep: char)
    requires
        forall|j: int| 0 <= j < y.len() ==> y[j] != sep,
    ensures
        split_els(s + seq![sep] + y, sep) == split_els(s, sep).push(y),
    decreases s.len(),
{
    let t = s + seq![sep] + y;
    lemma_find_sep_range(s, sep);
    let k = find_sep(s, sep);
    assert(forall|j: int| 0 <= j < s.len() ==> t[j] == s[j]);
    assert(t[s.len() as int] == sep);
    assert(forall|j: int| s.len() < j < t.len() ==> t[j] == y[j - s.len() - 1]);
    if k == -1 {
        lemma_find_sep_at(t, sep, s.len() as int);
        assert(t.take(s.len() as int) =~= s);
        assert(t.skip(s.len() as int + 1) =~= y);
        lemma_find_sep_none(y, sep);
        assert(split_els(y, sep) == seq![y]);
        assert(split_els(t, sep) == seq![t.take(s.len() as int)] + split_els(
            t.skip(s.len() as int + 1),
            sep,
        ));
        assert(split_els(t, sep) == seq![s] + seq![y]);
        assert(seq![s] + seq![y] =~= seq![s].push(y));
        assert(split_els(s, sep) == seq![s]);
    } else {
        lemma_find_sep_at(t, sep, k);
        assert(t.take(k) =~= s.take(k));
        assert(t.skip(k + 1) =~= s.skip(k + 1) + seq![sep] + y);
        lemma_split_append(s.skip(k + 1), y, sep);
        assert(split_els(t, sep) == seq![s.take(k)] + split_els(s.skip(k + 1), sep).push(y));
        assert(seq![s.take(k)] + split_els(s.skip(k + 1), sep).push(y) =~= (seq![s.take(k)]
            + split_els(s.skip(k + 1), sep)).push(y));
    }
}

/// Splitting a joined, non-empty, separator-free element sequence yields it
/// back exactly.
pub proof fn lemma_split_join(v: Seq<Seq<char>>, sep: char)
    requires
        v.len() >= 1,
        forall|i: int| 0 <= i < v.len() ==> !(#[trigger] v[i]).contains(sep),
    ensures
        split_els(join_els(v, sep), sep) == v,
    decreases v.len(),
{
    if v.len() == 1 {
        assert(v.contains(v[0]));
        assert(forall|j: int| 0 <= j < v[0].len() ==> v[0][j] != sep) by {
            assert(!v[0].contains(sep));
        }
        lemma_find_sep_none(v[0], sep);
        assert(split_els(join_els(v, sep), sep) == seq![v[0]]);
        assert(seq![v[0]] =~= v);
    } else {
        let d = v.drop_last();
        let l = v.last();
        assert(forall|i: int| 0 <= i < d.len() ==> d[i] == v[i]);
        assert(!l.contains(sep));
        assert(forall|j: int| 0 <= j < l.len() ==> l[j] != sep) by {
            assert(!l.contains(sep));
        }
        lemma_split_join(d, sep);
        lemma_split_append(join_els(d, sep), l, sep);
        assert(split_els(join_els(v, sep), sep) == d.push(l));
        assert(d.push(l) =~= v);
    }
}

/// Canonicalizing already canonical pieces changes nothing.
pub proof fn lemma_canon_all_id(v: Seq<Seq<char>>)
    requires
        all_canonical(v),
    ensures
        canon_all(v) == v,
    decreases v.len(),
{
    if v.len() == 0 {
        assert(canon_all(v) =~= v);
    } else {
        let d = v.drop_last();
        assert(all_canonical(d)) by {
            assert(forall|i: int| 0 <= i < d.len() ==> d[i] == v[i]);
        }
        lemma_canon_all_id(d);
        assert(is_canonical(v.last())) by {
            assert(v[v.len() - 1] == v.last());
        }
        assert(canon_all(v) == d.push(v.last()));
        assert(d.push(v.last()) =~= v);
    }
}

/// Deduplicating already distinct pieces changes nothing.
pub proof fn lemma_dedup_els_id(v: Seq<Seq<char>>)
    requires
        distinct_els(v),
    ensures
        dedup_els(v) == v,
    decreases v.len(),
{
    if v.len() == 0 {
    } else {
        let d = v.drop_last();
        let l = v.last();
        assert(distinct_els(d)) by {
            assert(forall|i: int| 0 <= i < d.len() ==> d[i] == v[i]);
        }
        lemma_dedup_els_id(d);
        assert(!d.contains(l)) by {
            if d.contains(l) {
                let i = choose|i: int| 0 <= i < d.len() && d[i] == l;
                assert(v[i] == v[v.len() - 1]);
            }
        }
        assert(dedup_els(v) == d.push(l));
        assert(d.push(l) =~= v);
    }
}

/// One parsing step: canonicalizing and deduplicating after taking one more
/// piece is inserting that piece's canonical form.
proof fn lemma_fold_step(done: Seq<Seq<char>>, piece: Seq<char>)
    ensures
        dedup_els(canon_all(done.push(piece))) == insert_el(
            dedup_els(canon_all(done)),
            flat_of(piece),
        ),
{
    let done2 = done.push(piece);
    assert(done2.drop_last() =~= done);
    assert(done2.last() == piece);
    assert(canon_all(done2) == canon_all(done).push(flat_of(piece)));
    assert(canon_all(done2).drop_last() =~= canon_all(done));
    assert(canon_all(done2).last() == flat_of(piece));
}

/// Splitting a tail whose first separator sits at `i` peels off one piece.
proof fn lemma_split_step(s: Seq<char>, sep: char, start: int, i: int)
    requires
        0 <= start <= i < s.len(),
        forall|j: int| start <= j < i ==> s[j] != sep,
        s[i] == sep,
    ensures
        split_els(s.skip(start), sep) == seq![s.subrange(start, i)] + split_els(
            s.skip(i + 1),
            sep,
        ),
{
    let tail = s.skip(start);
    assert(forall|j: int| 0 <= j < tail.len() ==> tail[j] == s[j + start]);
    lemma_find_sep_at(tail, sep, i - start);
    assert(tail.take(i - start) =~= s.subrange(start, i));
    assert(tail.skip(i - start + 1) =~= s.skip(i + 1));
    assert(split_els(tail, sep) == seq![tail.take(i - start)] + split_els(
        tail.skip(i - start + 1),
        sep,
    ));
}

/// Splitting a separator-free tail yields that one piece.
proof fn lemma_split_last(s: Seq<char>, sep: char, start: int)
    requires
        0 <= start <= s.len(),
        forall|j: int| start <= j < s.len() ==> s[j] != sep,
    ensures
        split_els(s.skip(start), sep) == seq![s.subrange(start, s.len() as int)],
{
    let tail = s.skip(start);
    assert(forall|j: int| 0 <= j < tail.len() ==> tail[j] == s[j + start]);
    lemma_find_sep_none(tail, sep);
    assert(tail =~= s.subrange(start, s.len() as int));
}

impl Flags {
    /// Renders the set as its elements' canonical texts joined by `sep`, in
    /// storage order, with no leading or trailing separator; the empty set
    /// renders as the empty string.
    pub fn to_text(&self, sep: char) -> (r: String)
        ensures
            r@ == join_els(self@, sep),
    {
        let n = self.len();
        let mut out = String::new();
        let mut i: usize = 0;
        while i < n
            invariant
                n == self@.len(),
            0 <= i <= n,
            out@ == join_els(self@.take(i as int), sep),
            decreases n - i,
        {
            proof {
                assert(self@.take(i as int + 1).drop_last() =~= self@.take(i as int));
                assert(self@.take(i as int + 1).last() == self@[i as int]);
                assert(self@.take(i as int + 1).len() == i + 1);
            }
            if i > 0 {
                let s = char_string(sep);
                out.append(s.as_str());
            }
            let v = self.get(i);
            out.append(v.as_str());
            proof {
                if i == 0 {
                    assert(out@ =~= self@[0]);
                    assert(join_els(self@.take(1), sep) == self@.take(1)[0]);
                    assert(self@.take(1)[0] == self@[0]);
                } else {
                    assert(out@ =~= join_els(self@.take(i as int), sep) + seq![sep] + self@[
                        i as int]);
                }
            }
            i = i + 1;
        }
        proof {
            assert(self@.take(n as int) =~= self@);
        }
        out
    }

    /// Parses a separator-joined text: each piece is normalized
    /// independently (which cannot fail) and inserted with duplicates
    /// dropped, so the dedup invariant holds of the result. The empty text
    /// parses to the singleton holding the empty variant, as splitting
    /// yields one empty piece.
    #[verifier::rlimit(50)]
    pub fn from_text(s: &str, sep: char) -> (r: Flags)
        ensures
            r@ == dedup_els(canon_all(split_els(s@, sep))),
    {
        let n = s.unicode_len();
        let mut r = Flags::empty();
        let ghost mut done: Seq<Seq<char>> = Seq::<Seq<char>>::empty();
        let mut start: usize = 0;
        let mut i: usize = 0;
        proof {
            assert(done + split_els(s@.skip(0), sep) =~= split_els(s@, sep)) by {
                assert(s@.skip(0) =~= s@);
            }
            assert(canon_all(done) =~= Seq::<Seq<char>>::empty());
        }
        while i < n
            invariant
                n == s@.len(),
            0 <= start <= i <= n,
            forall|j: int| start <= j < i ==> s@[j] != sep,
            split_els(s@, sep) == done + split_els(s@.skip(start as int), sep),
            r@ == dedup_els(canon_all(done)),
            decreases n - i,
        {
            let c = s.get_char(i);
            if c == sep {
                let piece = s.substring_char(start, i);
                let v = Variant::new(piece);
                r = r.union_one(v);
                proof {
                    lemma_split_step(s@, sep, start as int, i as int);
                    lemma_fold_step(done, piece@);
                    let done2 = done.push(piece@);
                    assert(done + (seq![piece@] + split_els(s@.skip(i as int + 1), sep)) =~= done2
                        + split_els(s@.skip(i as int + 1), sep));
                    done = done2;
                }
                start = i + 1;
            }
            i = i + 1;
        }
        let piece = s.substring_char(start, n);
        let v = Variant::new(piece);
        let r2 = r.union_one(v);
        proof {
            lemma_split_last(s@, sep, start as int);
            lemma_fold_step(done, piece@);
            assert(done + seq![piece@] =~= done.push(piece@));
        }
        r2
    }
}

} // verus!
