//! The order of `String`: lexicographic by character code point, which is the
//! order of their UTF-8 bytes.
use vstd::prelude::*;
use vstd::relations::{total_ordering, sorted_by};

verus! {

/// `a` comes no later than `b` in lexicographic code-point order.
pub open spec fn lex_le(a: Seq<char>, b: Seq<char>) -> bool
    decreases a.len(),
{
    if a.len() == 0 {
        true
    } else if b.len() == 0 {
        false
    } else if a[0] != b[0] {
        (a[0] as int) < (b[0] as int)
    } else {
        lex_le(a.drop_first(), b.drop_first())
    }
}

/// `lex_le` as a relation.
pub open spec fn lex_rel() -> spec_fn(Seq<char>, Seq<char>) -> bool {
    |a: Seq<char>, b: Seq<char>| lex_le(a, b)
}

proof fn lemma_lex_refl(a: Seq<char>)
    ensures
        lex_le(a, a),
    decreases a.len(),
{
    if a.len() > 0 {
        lemma_lex_refl(a.drop_first());
    }
}

proof fn lemma_lex_antisym(a: Seq<char>, b: Seq<char>)
    requires
        lex_le(a, b),
        lex_le(b, a),
    ensures
        a == b,
    decreases a.len(),
{
    if a.len() > 0 && b.len() > 0 && a[0] == b[0] {
        lemma_lex_antisym(a.drop_first(), b.drop_first());
        assert(a =~= seq![a[0]] + a.drop_first());
        assert(b =~= seq![b[0]] + b.drop_first());
    } else if a.len() > 0 && b.len() > 0 {
        assert((a[0] as int) != (b[0] as int));
    } else {
        assert(a.len() == 0 && b.len() == 0);
        assert(a =~= b);
    }
}

proof fn lemma_lex_trans(a: Seq<char>, b: Seq<char>, c: Seq<char>)
    requires
        lex_le(a, b),
        lex_le(b, c),
    ensures
        lex_le(a, c),
    decreases a.len(),
{
    if a.len() > 0 && b.len() > 0 && c.len() > 0 && a[0] == b[0] && b[0] == c[0] {
        lemma_lex_trans(a.drop_first(), b.drop_first(), c.drop_first());
    }
}

proof fn lemma_lex_total(a: Seq<char>, b: Seq<char>)
    ensures
        lex_le(a, b) || lex_le(b, a),
    decreases a.len(),
{
    if a.len() > 0 && b.len() > 0 && a[0] == b[0] {
        lemma_lex_total(a.drop_first(), b.drop_first());
    } else if a.len() > 0 && b.len() > 0 {
        assert((a[0] as int) != (b[0] as int));
    }
}

/// Lexicographic order is a total order.
pub proof fn lemma_lex_total_ordering()
    ensures
        total_ordering(lex_rel()),
{
    assert forall|x: Seq<char>| #[trigger] (lex_rel())(x, x) by {
        lemma_lex_refl(x);
    }
    assert forall|x: Seq<char>, y: Seq<char>| #[trigger] (lex_rel())(x, y) && #[trigger] (lex_rel())(y, x)
        implies x == y by {
        lemma_lex_antisym(x, y);
    }
    assert forall|x: Seq<char>, y: Seq<char>, z: Seq<char>| #[trigger] (lex_rel())(x, y) && #[trigger] (
    lex_rel())(y, z) implies (lex_rel())(x, z) by {
        lemma_lex_trans(x, y, z);
    }
    assert forall|x: Seq<char>, y: Seq<char>| #[trigger] (lex_rel())(x, y) || #[trigger] (lex_rel())(y, x) by {
        lemma_lex_total(x, y);
    }
}

/// Whether `a` comes no later than `b`.
pub fn lex_le_exec(a: &Vec<char>, b: &Vec<char>) -> (r: bool)
    ensures
        r == lex_le(a@, b@),
{
    let mut i: usize = 0;
    assert(a@.skip(0) =~= a@);
    assert(b@.skip(0) =~= b@);
    while i < a.len() && i < b.len() && a[i] == b[i]
        invariant
            i <= a.len(),
            i <= b.len(),
            lex_le(a@, b@) == lex_le(a@.skip(i as int), b@.skip(i as int)),
        decreases a.len() - i,
    {
        proof {
            assert(a@.skip(i as int).drop_first() =~= a@.skip(i + 1));
            assert(b@.skip(i as int).drop_first() =~= b@.skip(i + 1));
        }
        i = i + 1;
    }
    if i == a.len() {
        true
    } else if i == b.len() {
        false
    } else {
        assert(a@.skip(i as int)[0] == a@[i as int]);
        assert(b@.skip(i as int)[0] == b@[i as int]);
        a[i] < b[i]
    }
}

/// The deep view of `v` sorted in lexicographic order.
pub open spec fn sorted_views(v: Seq<Seq<char>>) -> Seq<Seq<char>> {
    v.sort_by(lex_rel())
}

/// Two sequences with the same elements sort to the same sequence.
pub proof fn lemma_sorted_views_unique(x: Seq<Seq<char>>, y: Seq<Seq<char>>)
    requires
        sorted_by(x, lex_rel()),
        x.to_multiset() == y.to_multiset(),
    ensures
        x == sorted_views(y),
{
    lemma_lex_total_ordering();
    y.lemma_sort_by_ensures(lex_rel());
    vstd::seq_lib::lemma_sorted_unique(x, sorted_views(y), lex_rel());
}

} // verus!
