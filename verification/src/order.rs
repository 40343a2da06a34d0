//! The order of names, and sorting by it.

use vstd::prelude::*;
use vstd::seq_lib::to_multiset_remove;
use crate::text::{chars_of, texts};

verus! {

/// `a` comes before `b` in the order of their characters, or is `b`.
pub open spec fn lex_le(a: Seq<char>, b: Seq<char>) -> bool
    decreases a.len(),
{
    a.len() == 0 || (b.len() > 0 && (a[0] < b[0] || (a[0] == b[0] && lex_le(
        a.drop_first(),
        b.drop_first(),
    ))))
}

pub open spec fn is_sorted(s: Seq<Seq<char>>) -> bool {
    forall|i: int, j: int| 0 <= i <= j < s.len() ==> lex_le(#[trigger] s[i], #[trigger] s[j])
}

pub proof fn lex_reflexive(a: Seq<char>)
    ensures
        lex_le(a, a),
    decreases a.len(),
{
    if a.len() > 0 {
        lex_reflexive(a.drop_first());
    }
}

pub proof fn lex_total(a: Seq<char>, b: Seq<char>)
    ensures
        lex_le(a, b) || lex_le(b, a),
    decreases a.len(),
{
    if a.len() > 0 && b.len() > 0 && a[0] == b[0] {
        lex_total(a.drop_first(), b.drop_first());
    }
}

pub proof fn lex_transitive(a: Seq<char>, b: Seq<char>, c: Seq<char>)
    requires
        lex_le(a, b),
        lex_le(b, c),
    ensures
        lex_le(a, c),
    decreases a.len(),
{
    if a.len() > 0 && a[0] == b[0] && b[0] == c[0] {
        lex_transitive(a.drop_first(), b.drop_first(), c.drop_first());
    }
}

pub proof fn lex_antisymmetric(a: Seq<char>, b: Seq<char>)
    requires
        lex_le(a, b),
        lex_le(b, a),
    ensures
        a == b,
    decreases a.len(),
{
    if a.len() > 0 {
        lex_antisymmetric(a.drop_first(), b.drop_first());
        assert(a =~= seq![a[0]] + a.drop_first());
        assert(b =~= seq![b[0]] + b.drop_first());
    } else {
        assert(a =~= b);
    }
}

/// Whether `a` comes before `b`, or is `b`.
pub fn not_after(a: &str, b: &str) -> (r: bool)
    ensures
        r == lex_le(a@, b@),
{
    let x: Vec<char> = chars_of(a);
    let y: Vec<char> = chars_of(b);
    let mut i: usize = 0;
    assert(x@.skip(0) =~= a@);
    assert(y@.skip(0) =~= b@);
    while i < x.len() && i < y.len()
        invariant
            i <= x@.len(),
            i <= y@.len(),
            lex_le(x@.skip(i as int), y@.skip(i as int)) == lex_le(a@, b@),
        decreases x@.len() - i,
    {
        if x[i] != y[i] {
            return x[i] < y[i];
        }
        assert(x@.skip(i as int).drop_first() =~= x@.skip(i + 1));
        assert(y@.skip(i as int).drop_first() =~= y@.skip(i + 1));
        i = i + 1;
    }
    i == x.len()
}

proof fn texts_insert(v: Seq<String>, i: int, s: String)
    requires
        0 <= i <= v.len(),
    ensures
        texts(v.insert(i, s)) == texts(v).insert(i, s@),
{
    assert(texts(v.insert(i, s)) =~= texts(v).insert(i, s@));
}

proof fn multiset_insert<A>(s: Seq<A>, i: int, x: A)
    requires
        0 <= i <= s.len(),
    ensures
        s.insert(i, x).to_multiset() == s.to_multiset().insert(x),
{
    let t = s.insert(i, x);
    to_multiset_remove(t, i);
    assert(t.remove(i) =~= s);
    assert(t.contains(x)) by {
        assert(t[i] == x);
    }
    t.to_multiset_ensures();
    assert(t.to_multiset().count(x) > 0);
    assert(t.to_multiset() =~= s.to_multiset().insert(x));
}

/// Puts one more name at its place among sorted ones.
pub fn insert_sorted(v: &mut Vec<String>, s: String)
    requires
        is_sorted(texts(old(v)@)),
    ensures
        is_sorted(texts(final(v)@)),
        texts(final(v)@).to_multiset() == texts(old(v)@).to_multiset().insert(s@),
{
    let ghost before = texts(v@);
    let mut i: usize = v.len();
    while i > 0 && !not_after(v[i - 1].as_str(), s.as_str())
        invariant
            i <= v@.len(),
            texts(v@) == before,
            forall|j: int| i <= j < before.len() ==> !lex_le(#[trigger] before[j], s@),
        decreases i,
    {
        assert(before[i - 1] == v@[i - 1]@);
        i = i - 1;
    }
    proof {
        texts_insert(v@, i as int, s);
        multiset_insert(before, i as int, s@);
        let after = before.insert(i as int, s@);
        if i > 0 {
            assert(before[i - 1] == v@[i - 1]@);
        }
        assert forall|a: int, b: int| 0 <= a <= b < after.len() implies lex_le(
            #[trigger] after[a],
            #[trigger] after[b],
        ) by {
            if a == b {
                lex_reflexive(after[a]);
            } else if b < i {
                assert(lex_le(before[a], before[b]));
            } else if b == i {
                assert(lex_le(before[a], before[i - 1]));
                lex_transitive(before[a], before[i - 1], s@);
            } else if a == i {
                lex_total(before[b - 1], s@);
            } else if a < i {
                assert(lex_le(before[a], before[b - 1]));
            } else {
                assert(lex_le(before[a - 1], before[b - 1]));
            }
        }
    }
    v.insert(i, s);
}

/// Sorted listings of the same names are the same listing.
pub proof fn sorted_is_unique(a: Seq<Seq<char>>, b: Seq<Seq<char>>)
    requires
        is_sorted(a),
        is_sorted(b),
        a.to_multiset() == b.to_multiset(),
    ensures
        a == b,
    decreases a.len(),
{
    a.to_multiset_ensures();
    b.to_multiset_ensures();
    assert(a.len() == b.len());
    if a.len() == 0 {
        assert(a =~= b);
    } else {
        let x = a.last();
        let y = b.last();
        assert(a.contains(x));
        assert(a.to_multiset().count(x) > 0);
        assert(b.to_multiset().count(x) > 0);
        assert(b.contains(x));
        assert(b.contains(y));
        assert(b.to_multiset().count(y) > 0);
        assert(a.to_multiset().count(y) > 0);
        assert(a.contains(y));
        let i = choose|i: int| 0 <= i < b.len() && b[i] == x;
        let j = choose|j: int| 0 <= j < a.len() && a[j] == y;
        assert(lex_le(b[i], b[b.len() - 1]));
        assert(lex_le(a[j], a[a.len() - 1]));
        lex_antisymmetric(x, y);
        to_multiset_remove(a, a.len() - 1);
        to_multiset_remove(b, b.len() - 1);
        assert(a.remove(a.len() - 1) =~= a.drop_last());
        assert(b.remove(b.len() - 1) =~= b.drop_last());
        assert(is_sorted(a.drop_last())) by {
            assert forall|p: int, q: int| 0 <= p <= q < a.drop_last().len() implies lex_le(
                #[trigger] a.drop_last()[p],
                #[trigger] a.drop_last()[q],
            ) by {
                assert(lex_le(a[p], a[q]));
            }
        }
        assert(is_sorted(b.drop_last())) by {
            assert forall|p: int, q: int| 0 <= p <= q < b.drop_last().len() implies lex_le(
                #[trigger] b.drop_last()[p],
                #[trigger] b.drop_last()[q],
            ) by {
                assert(lex_le(b[p], b[q]));
            }
        }
        sorted_is_unique(a.drop_last(), b.drop_last());
        assert(a =~= a.drop_last().push(x));
        assert(b =~= b.drop_last().push(y));
    }
}

/// Names are ordered as in a dictionary, by the first character in which they
/// differ; a name comes before one that goes on where it ends.
pub proof fn names_are_ordered_by_their_first_difference(
    p: Seq<char>,
    a: char,
    x: Seq<char>,
    b: char,
    y: Seq<char>,
)
    ensures
        a < b ==> lex_le(p + seq![a] + x, p + seq![b] + y) && !lex_le(
            p + seq![b] + y,
            p + seq![a] + x,
        ),
        lex_le(p, p + x),
        x.len() > 0 ==> !lex_le(p + x, p),
    decreases p.len(),
{
    let s = p + seq![a] + x;
    let t = p + seq![b] + y;
    if p.len() > 0 {
        let q = p.drop_first();
        names_are_ordered_by_their_first_difference(q, a, x, b, y);
        assert(s.drop_first() =~= q + seq![a] + x);
        assert(t.drop_first() =~= q + seq![b] + y);
        assert((p + x).drop_first() =~= q + x);
    }
}

/// A sorted list is in order from each name to the next.
pub proof fn sorted_names_ascend(s: Seq<Seq<char>>, i: int, j: int)
    requires
        is_sorted(s),
        0 <= i < j < s.len(),
    ensures
        lex_le(s[i], s[j]),
        lex_le(s[j], s[i]) ==> s[i] == s[j],
{
    if lex_le(s[j], s[i]) {
        lex_antisymmetric(s[i], s[j]);
    }
}

} // verus!
