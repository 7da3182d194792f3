//! Lexicographic order on strings (by code point, which is the order of
//! their UTF-8 bytes) and a verified sort of string lists.
use vstd::prelude::*;
use vstd::relations::*;

verus! {

/// `a` sorts before or equal to `b`, comparing code points left to right.
pub open spec fn lex_le(a: Seq<char>, b: Seq<char>) -> bool
    decreases a.len(),
{
    if a.len() == 0 {
        true
    } else if b.len() == 0 {
        false
    } else if a[0] != b[0] {
        a[0] < b[0]
    } else {
        lex_le(a.drop_first(), b.drop_first())
    }
}

/// The relation `lex_le` as a spec function value.
pub open spec fn lex_leq() -> spec_fn(Seq<char>, Seq<char>) -> bool {
    |a: Seq<char>, b: Seq<char>| lex_le(a, b)
}

proof fn lemma_lex_refl(a: Seq<char>)
    ensures
        lex_le(a, a),
    decreases a.len(),
{
    if a.len() > 0 {
        lemma_lex_refl(a.drop_first());
    }
}

proof fn lemma_lex_antisym(a: Seq<char>, b: Seq<char>)
    requires
        lex_le(a, b),
        lex_le(b, a),
    ensures
        a == b,
    decreases a.len(),
{
    if a.len() > 0 && b.len() > 0 {
        lemma_lex_antisym(a.drop_first(), b.drop_first());
        assert(a =~= seq![a[0]] + a.drop_first());
        assert(b =~= seq![b[0]] + b.drop_first());
    }
}

proof fn lemma_lex_trans(a: Seq<char>, b: Seq<char>, c: Seq<char>)
    requires
        lex_le(a, b),
        lex_le(b, c),
    ensures
        lex_le(a, c),
    decreases a.len(),
{
    if a.len() > 0 && b.len() > 0 && c.len() > 0 {
        if a[0] == b[0] && b[0] == c[0] {
            lemma_lex_trans(a.drop_first(), b.drop_first(), c.drop_first());
        }
    }
}

proof fn lemma_lex_total(a: Seq<char>, b: Seq<char>)
    ensures
        lex_le(a, b) || lex_le(b, a),
    decreases a.len(),
{
    if a.len() > 0 && b.len() > 0 && a[0] == b[0] {
        lemma_lex_total(a.drop_first(), b.drop_first());
    }
}

/// Lexicographic order is a total order.
pub proof fn lemma_lex_total_ordering()
    ensures
        total_ordering(lex_leq()),
{
    assert forall|a: Seq<char>| #[trigger] lex_leq()(a, a) by {
        lemma_lex_refl(a);
    }
    assert forall|a: Seq<char>, b: Seq<char>|
        #[trigger] lex_leq()(a, b) && #[trigger] lex_leq()(b, a) implies a == b by {
        lemma_lex_antisym(a, b);
    }
    assert forall|a: Seq<char>, b: Seq<char>, c: Seq<char>|
        #[trigger] lex_leq()(a, b) && #[trigger] lex_leq()(b, c) implies lex_leq()(a, c) by {
        lemma_lex_trans(a, b, c);
    }
    assert forall|a: Seq<char>, b: Seq<char>|
        #[trigger] lex_leq()(a, b) || #[trigger] lex_leq()(b, a) by {
        lemma_lex_total(a, b);
    }
}

proof fn lemma_lex_skip(a: Seq<char>, b: Seq<char>, i: int)
    requires
        0 <= i < a.len(),
        i < b.len(),
        a[i] == b[i],
    ensures
        lex_le(a.skip(i), b.skip(i)) == lex_le(a.skip(i + 1), b.skip(i + 1)),
{
    assert(a.skip(i).drop_first() =~= a.skip(i + 1));
    assert(b.skip(i).drop_first() =~= b.skip(i + 1));
}

/// Whether `a` sorts before or equal to `b`.
pub fn chars_le(a: &[char], b: &[char]) -> (r: bool)
    ensures
        r == lex_le(a@, b@),
{
    let mut i: usize = 0;
    assert(a@.skip(0) =~= a@);
    assert(b@.skip(0) =~= b@);
    while i < a.len() && i < b.len() && a[i] == b[i]
        invariant
            i <= a@.len(),
            i <= b@.len(),
            lex_le(a@, b@) == lex_le(a@.skip(i as int), b@.skip(i as int)),
        decreases a@.len() - i,
    {
        proof {
            lemma_lex_skip(a@, b@, i as int);
        }
        i = i + 1;
    }
    if i == a.len() {
        true
    } else if i == b.len() {
        false
    } else {
        a[i] < b[i]
    }
}

/// The character sequences held by a list of vectors.
pub open spec fn views(v: Seq<Vec<char>>) -> Seq<Seq<char>> {
    v.map_values(|x: Vec<char>| x@)
}

/// Sorts strings (as character vectors) in lexicographic order; the
/// result is the unique sorted arrangement of the input.
pub fn sort_strings(v: Vec<Vec<char>>) -> (r: Vec<Vec<char>>)
    ensures
        views(r@) == views(v@).sort_by(lex_leq()),
        views(r@).to_multiset() == views(v@).to_multiset(),
        sorted_by(views(r@), lex_leq()),
{
    broadcast use vstd::seq_lib::group_to_multiset_ensures;

    proof {
        lemma_lex_total_ordering();
    }
    let mut out: Vec<Vec<char>> = Vec::new();
    let n = v.len();
    let mut i: usize = 0;
    while i < n
        invariant
            i <= n,
            n == v@.len(),
            total_ordering(lex_leq()),
            sorted_by(views(out@), lex_leq()),
            views(out@).to_multiset() == views(v@.subrange(0, i as int)).to_multiset(),
        decreases n - i,
    {
        let x = v[i].clone();
        let ghost xv = v@[i as int]@;
        assert(x@ == xv);
        let mut pos: usize = 0;
        while pos < out.len() && chars_le(out[pos].as_slice(), x.as_slice())
            invariant
                pos <= out@.len(),
                forall|k: int| 0 <= k < pos ==> lex_le(#[trigger] out@[k]@, xv),
                x@ == xv,
            decreases out@.len() - pos,
        {
            pos = pos + 1;
        }
        let ghost before = views(out@);
        proof {
            if pos < out@.len() {
                lemma_lex_total(out@[pos as int]@, xv);
            }
        }
        out.insert(pos, x);
        proof {
            assert(views(out@) =~= before.insert(pos as int, xv));
            vstd::seq_lib::to_multiset_insert(before, pos as int, xv);
            assert(v@.subrange(0, i + 1) =~= v@.subrange(0, i as int).push(v@[i as int]));
            assert(views(v@.subrange(0, i + 1)) =~= views(v@.subrange(0, i as int)).push(xv));
            views(v@.subrange(0, i as int)).to_multiset_ensures();
            assert(views(v@.subrange(0, i + 1)).to_multiset() =~= views(
                v@.subrange(0, i as int),
            ).to_multiset().insert(xv));
            assert forall|a: int, b: int| 0 <= a < b < views(out@).len() implies #[trigger] lex_leq()(
                views(out@)[a],
                views(out@)[b],
            ) by {
                let s = views(out@);
                if b < pos {
                    assert(s[a] == before[a] && s[b] == before[b]);
                } else if b == pos {
                    assert(s[b] == xv && s[a] == before[a]);
                } else if a == pos {
                    assert(s[a] == xv && s[b] == before[b - 1]);
                    assert(lex_le(xv, before[pos as int]));
                    if b - 1 > pos {
                        assert(lex_leq()(before[pos as int], before[b - 1]));
                        lemma_lex_trans(xv, before[pos as int], before[b - 1]);
                    }
                } else if a < pos {
                    assert(s[a] == before[a] && s[b] == before[b - 1]);
                    assert(lex_leq()(before[a], before[b - 1]));
                } else {
                    assert(s[a] == before[a - 1] && s[b] == before[b - 1]);
                    assert(lex_leq()(before[a - 1], before[b - 1]));
                }
            }
        }
        i = i + 1;
    }
    proof {
        assert(v@.subrange(0, n as int) =~= v@);
        views(v@).lemma_sort_by_ensures(lex_leq());
        vstd::seq_lib::lemma_sorted_unique(views(out@), views(v@).sort_by(lex_leq()), lex_leq());
    }
    out
}

} // verus!
