//! The lexicographic order of texts by character value, and sorting by it.
//!
//! Comparing UTF-8 strings byte by byte (as `str` and `OsStr` do) gives the
//! same order as comparing their characters by code point.
use vstd::prelude::*;
use vstd::relations::{sorted_by, total_ordering};
use crate::text::texts;

verus! {

/// Whether `a` comes before `b` or equals it, comparing characters by code
/// point and a proper prefix before the longer text.
pub open spec fn text_le(a: Seq<char>, b: Seq<char>) -> bool
    decreases a.len(),
{
    if a.len() == 0 {
        true
    } else if b.len() == 0 {
        false
    } else if a[0] != b[0] {
        a[0] < b[0]
    } else {
        text_le(a.drop_first(), b.drop_first())
    }
}

/// The order as a relation.
pub open spec fn text_order() -> spec_fn(Seq<char>, Seq<char>) -> bool {
    |a: Seq<char>, b: Seq<char>| text_le(a, b)
}

proof fn lemma_text_le_refl(a: Seq<char>)
    ensures
        text_le(a, a),
    decreases a.len(),
{
    if a.len() > 0 {
        lemma_text_le_refl(a.drop_first());
    }
}

proof fn lemma_text_le_total(a: Seq<char>, b: Seq<char>)
    ensures
        text_le(a, b) || text_le(b, a),
    decreases a.len(),
{
    if a.len() > 0 && b.len() > 0 && a[0] == b[0] {
        lemma_text_le_total(a.drop_first(), b.drop_first());
    }
}

proof fn lemma_text_le_antisym(a: Seq<char>, b: Seq<char>)
    requires
        text_le(a, b),
        text_le(b, a),
    ensures
        a == b,
    decreases a.len(),
{
    if a.len() > 0 && b.len() > 0 {
        if a[0] == b[0] {
            lemma_text_le_antisym(a.drop_first(), b.drop_first());
            assert(a =~= seq![a[0]] + a.drop_first());
            assert(b =~= seq![b[0]] + b.drop_first());
        }
    } else {
        assert(a =~= b);
    }
}

proof fn lemma_text_le_trans(a: Seq<char>, b: Seq<char>, c: Seq<char>)
    requires
        text_le(a, b),
        text_le(b, c),
    ensures
        text_le(a, c),
    decreases a.len(),
{
    if a.len() > 0 && b.len() > 0 && c.len() > 0 {
        if a[0] == b[0] && b[0] == c[0] {
            lemma_text_le_trans(a.drop_first(), b.drop_first(), c.drop_first());
        }
    }
}

/// `text_le` is a total order.
pub proof fn lemma_text_order_total()
    ensures
        total_ordering(text_order()),
{
    assert forall|x: Seq<char>| #[trigger] (text_order())(x, x) by {
        lemma_text_le_refl(x);
    }
    assert forall|x: Seq<char>, y: Seq<char>|
        #[trigger] (text_order())(x, y) && #[trigger] (text_order())(y, x) implies x == y by {
        lemma_text_le_antisym(x, y);
    }
    assert forall|x: Seq<char>, y: Seq<char>, z: Seq<char>|
        #[trigger] (text_order())(x, y) && #[trigger] (text_order())(y, z) implies (text_order())(
        x,
        z,
    ) by {
        lemma_text_le_trans(x, y, z);
    }
    assert forall|x: Seq<char>, y: Seq<char>|
        #[trigger] (text_order())(x, y) || #[trigger] (text_order())(y, x) by {
        lemma_text_le_total(x, y);
    }
}

/// Whether `a` comes before `b` or equals it.
pub fn text_le_exec(a: &Vec<char>, b: &Vec<char>) -> (r: bool)
    ensures
        r == text_le(a@, b@),
{
    let mut i: usize = 0;
    assert(a@.skip(0) =~= a@);
    assert(b@.skip(0) =~= b@);
    while i < a.len()
        invariant
            i <= a.len(),
            i <= b.len(),
            text_le(a@, b@) == text_le(a@.skip(i as int), b@.skip(i as int)),
        decreases a.len() - i,
    {
        if i >= b.len() {
            return false;
        }
        let x = a[i];
        let y = b[i];
        assert(a@.skip(i as int)[0] == x);
        assert(b@.skip(i as int)[0] == y);
        if x != y {
            return x < y;
        }
        assert(a@.skip(i as int).drop_first() =~= a@.skip(i + 1));
        assert(b@.skip(i as int).drop_first() =~= b@.skip(i + 1));
        i = i + 1;
    }
    true
}

/// The texts of `v` in ascending order.
pub fn sort_texts(v: Vec<Vec<char>>) -> (r: Vec<Vec<char>>)
    ensures
        texts(r@) == texts(v@).sort_by(text_order()),
        sorted_by(texts(r@), text_order()),
{
    broadcast use vstd::seq_lib::group_to_multiset_ensures;
    broadcast use vstd::seq_lib::to_multiset_insert;
    broadcast use vstd::seq_lib::to_multiset_build;

    proof {
        lemma_text_order_total();
    }
    let ghost ord = text_order();
    let mut r: Vec<Vec<char>> = Vec::new();
    let mut i: usize = 0;
    assert(texts(v@).take(0) =~= Seq::<Seq<char>>::empty());
    assert(texts(r@) =~= Seq::<Seq<char>>::empty());
    while i < v.len()
        invariant
            i <= v.len(),
            ord == text_order(),
            total_ordering(ord),
            sorted_by(texts(r@), ord),
            texts(r@).to_multiset() == texts(v@).take(i as int).to_multiset(),
        decreases v.len() - i,
    {
        let x = v[i].clone();
        let mut p: usize = 0;
        while p < r.len() && text_le_exec(&r[p], &x)
            invariant
                p <= r.len(),
                forall|q: int| 0 <= q < p ==> text_le(#[trigger] r@[q]@, x@),
            decreases r.len() - p,
        {
            p = p + 1;
        }
        let ghost old_t = texts(r@);
        proof {
            if p < r.len() {
                assert(!text_le(r@[p as int]@, x@));
                lemma_text_le_total(x@, r@[p as int]@);
                assert(old_t[p as int] == r@[p as int]@);
                assert(ord(x@, old_t[p as int]));
            }
        }
        r.insert(p, x);
        let ghost new_t = texts(r@);
        assert(new_t =~= old_t.insert(p as int, v@[i as int]@));
        proof {
            assert forall|a: int, b: int| 0 <= a < b < new_t.len() implies #[trigger] ord(
                new_t[a],
                new_t[b],
            ) by {
                if b < p {
                    assert(ord(old_t[a], old_t[b]));
                } else if b == p {
                    assert(text_le(old_t[a], x@));
                } else if a < p {
                    assert(text_le(old_t[a], x@));
                    assert(ord(x@, old_t[p as int]));
                    if p < b - 1 {
                        assert(ord(old_t[p as int], old_t[b - 1]));
                    }
                } else if a == p {
                    if p < b - 1 {
                        assert(ord(old_t[p as int], old_t[b - 1]));
                    }
                } else {
                    assert(ord(old_t[a - 1], old_t[b - 1]));
                }
            }
            assert(texts(v@).take(i + 1) =~= texts(v@).take(i as int).push(v@[i as int]@));
            vstd::seq_lib::to_multiset_insert(old_t, p as int, v@[i as int]@);
            vstd::seq_lib::to_multiset_build(texts(v@).take(i as int), v@[i as int]@);
        }
        i = i + 1;
    }
    assert(texts(v@).take(v.len() as int) =~= texts(v@));
    proof {
        texts(v@).lemma_sort_by_ensures(ord);
        vstd::seq_lib::lemma_sorted_unique(texts(r@), texts(v@).sort_by(ord), ord);
    }
    r
}

} // verus!
