//! The lexicographic order of texts, by character code, which is the order
//! `String`'s `Ord` gives; and sorting by it.
use vstd::prelude::*;
use vstd::multiset::Multiset;
use vstd::seq_lib::*;
use crate::text::{chars_of, texts};

verus! {

/// Whether `a` comes strictly before `b`.
pub open spec fn lex_lt(a: Seq<char>, b: Seq<char>) -> bool
    decreases a.len(),
{
    if b.len() == 0 {
        false
    } else if a.len() == 0 {
        true
    } else if (a[0] as u32) < (b[0] as u32) {
        true
    } else if a[0] == b[0] {
        lex_lt(a.drop_first(), b.drop_first())
    } else {
        false
    }
}

/// No text comes before itself.
pub proof fn lemma_lex_irreflexive(a: Seq<char>)
    ensures
        !lex_lt(a, a),
    decreases a.len(),
{
    if a.len() > 0 {
        lemma_lex_irreflexive(a.drop_first());
    }
}

/// The order is transitive.
pub proof fn lemma_lex_transitive(a: Seq<char>, b: Seq<char>, c: Seq<char>)
    requires
        lex_lt(a, b),
        lex_lt(b, c),
    ensures
        lex_lt(a, c),
    decreases a.len(),
{
    if a.len() > 0 && b.len() > 0 && c.len() > 0 && a[0] == b[0] && b[0] == c[0] {
        lemma_lex_transitive(a.drop_first(), b.drop_first(), c.drop_first());
    }
}

/// Two texts are equal or one comes before the other.
pub proof fn lemma_lex_total(a: Seq<char>, b: Seq<char>)
    ensures
        lex_lt(a, b) || a == b || lex_lt(b, a),
    decreases a.len(),
{
    if a.len() > 0 && b.len() > 0 {
        if a[0] == b[0] {
            lemma_lex_total(a.drop_first(), b.drop_first());
            if a.drop_first() == b.drop_first() {
                assert(a =~= seq![a[0]] + a.drop_first());
                assert(b =~= seq![b[0]] + b.drop_first());
            }
        } else {
            let u = a[0] as u32;
            if u == b[0] as u32 {
                vstd::utf8::char_u32_cast(a[0], u);
                vstd::utf8::char_u32_cast(b[0], u);
            }
        }
    } else if a.len() == 0 && b.len() == 0 {
        assert(a =~= b);
    }
}

/// Whether `a` comes strictly before `b`.
pub fn text_less(a: &str, b: &str) -> (r: bool)
    ensures
        r == lex_lt(a@, b@),
{
    let x = chars_of(a);
    let y = chars_of(b);
    let mut i: usize = 0;
    assert(x@.subrange(0, x@.len() as int) =~= x@);
    assert(y@.subrange(0, y@.len() as int) =~= y@);
    while i < x.len() && i < y.len() && x[i] == y[i]
        invariant
            x@ == a@,
            y@ == b@,
            i <= x@.len(),
            i <= y@.len(),
            lex_lt(a@, b@) == lex_lt(x@.subrange(i as int, x@.len() as int), y@.subrange(i as int, y@.len() as int)),
        decreases x@.len() - i,
    {
        assert(x@.subrange(i as int, x@.len() as int).drop_first() =~= x@.subrange(i + 1, x@.len() as int));
        assert(y@.subrange(i as int, y@.len() as int).drop_first() =~= y@.subrange(i + 1, y@.len() as int));
        i += 1;
    }
    if i == y.len() {
        false
    } else if i == x.len() {
        true
    } else {
        (x[i] as u32) < (y[i] as u32)
    }
}

/// Whether a list of texts is in non-decreasing order.
pub open spec fn sorted_texts(v: Seq<Seq<char>>) -> bool {
    forall|i: int, j: int| 0 <= i < j < v.len() ==> !lex_lt(#[trigger] v[j], #[trigger] v[i])
}

/// The texts of `v` in non-decreasing order, as `sort` leaves a `Vec<String>`.
pub fn sort_texts(v: Vec<String>) -> (r: Vec<String>)
    ensures
        sorted_texts(texts(r@)),
        texts(r@).to_multiset() == texts(v@).to_multiset(),
{
    broadcast use vstd::seq_lib::group_to_multiset_ensures;

    let mut out: Vec<String> = Vec::new();
    let mut rest = v;
    let ghost orig = texts(rest@);
    assert(texts(out@) =~= Seq::<Seq<char>>::empty());
    assert(texts(out@).to_multiset().add(texts(rest@).to_multiset()) =~= orig.to_multiset());
    while rest.len() > 0
        invariant
            sorted_texts(texts(out@)),
            texts(out@).to_multiset().add(texts(rest@).to_multiset()) == orig.to_multiset(),
        decreases rest@.len(),
    {
        let ghost before_rest = rest@;
        let x = rest.pop().unwrap();
        proof {
            assert(texts(before_rest) =~= texts(rest@).push(x@));
            to_multiset_build(texts(rest@), x@);
        }
        let mut p: usize = 0;
        while p < out.len() && !text_less(x.as_str(), out[p].as_str())
            invariant
                p <= out@.len(),
                forall|j: int| 0 <= j < p ==> !lex_lt(x@, #[trigger] out@[j]@),
            decreases out@.len() - p,
        {
            p += 1;
        }
        let ghost before = out@;
        out.insert(p, x);
        proof {
            let t = texts(out@);
            let tb = texts(before);
            assert(t =~= tb.insert(p as int, x@));
            to_multiset_insert(tb, p as int, x@);
            assert forall|i: int, j: int| 0 <= i < j < t.len() implies !lex_lt(#[trigger] t[j], #[trigger] t[i]) by {
                if j == p {
                    assert(!lex_lt(x@, tb[i]));
                } else if i == p {
                    // x before out[p..], which are all at least out[p] > x or equal order
                    assert(lex_lt(x@, tb[p as int])) by {
                        assert(p < tb.len());
                    }
                    if j - 1 > p {
                        assert(!lex_lt(tb[j - 1], tb[p as int]));
                        lemma_lex_total(tb[j - 1], tb[p as int]);
                        if lex_lt(tb[j - 1], x@) {
                            lemma_lex_transitive(tb[j - 1], x@, tb[p as int]);
                        }
                    }
                    lemma_lex_irreflexive(x@);
                    if lex_lt(t[j], x@) {
                        if j - 1 > p {
                            lemma_lex_total(tb[p as int], tb[j - 1]);
                            if lex_lt(tb[p as int], tb[j - 1]) {
                                lemma_lex_transitive(x@, tb[p as int], tb[j - 1]);
                                lemma_lex_transitive(x@, tb[j - 1], x@);
                            } else {
                                lemma_lex_transitive(x@, tb[p as int], x@);
                            }
                        } else {
                            lemma_lex_transitive(x@, tb[p as int], x@);
                        }
                    }
                } else {
                    let i0 = if i < p { i } else { i - 1 };
                    let j0 = if j < p { j } else { j - 1 };
                    assert(!lex_lt(tb[j0], tb[i0]));
                }
            }
        }
    }
    proof {
        assert(texts(rest@) =~= Seq::<Seq<char>>::empty());
        assert(texts(rest@).to_multiset() =~= Multiset::<Seq<char>>::empty());
    }
    out
}

/// Whether a list of texts is in strictly increasing order, so each text
/// appears once.
pub open spec fn strictly_sorted_texts(v: Seq<Seq<char>>) -> bool {
    forall|i: int, j: int| 0 <= i < j < v.len() ==> lex_lt(#[trigger] v[i], #[trigger] v[j])
}

/// A sorted list with each text kept once.
pub fn dedup_sorted(v: Vec<String>) -> (r: Vec<String>)
    requires
        sorted_texts(texts(v@)),
    ensures
        strictly_sorted_texts(texts(r@)),
        forall|k: Seq<char>| #[trigger] texts(r@).contains(k) <==> texts(v@).contains(k),
{
    let mut out: Vec<String> = Vec::new();
    let mut i: usize = 0;
    while i < v.len()
        invariant
            i <= v@.len(),
            sorted_texts(texts(v@)),
            strictly_sorted_texts(texts(out@)),
            i > 0 ==> out@.len() > 0 && out@.last()@ == v@[i - 1]@,
            i == 0 ==> out@.len() == 0,
            forall|k: Seq<char>| #[trigger] texts(out@).contains(k) <==> texts(v@.subrange(0, i as int)).contains(k),
        decreases v@.len() - i,
    {
        let ghost before = texts(out@);
        let ghost pre = texts(v@.subrange(0, i as int));
        let ghost post = texts(v@.subrange(0, i + 1));
        assert(post =~= pre.push(v@[i as int]@));
        let keep = out.len() == 0 || !crate::text::same_text(out[out.len() - 1].as_str(), v[i].as_str());
        if keep {
            let x = v[i].clone();
            proof {
                if i > 0 {
                    let last = v@[i - 1]@;
                    assert(texts(v@)[i - 1] == last && texts(v@)[i as int] == v@[i as int]@);
                    assert(!lex_lt(v@[i as int]@, last));
                    lemma_lex_total(last, v@[i as int]@);
                }
            }
            out.push(x);
            proof {
                let after = texts(out@);
                assert(after =~= before.push(v@[i as int]@));
                assert forall|a: int, b: int| 0 <= a < b < after.len() implies lex_lt(#[trigger] after[a], #[trigger] after[b]) by {
                    if b == after.len() - 1 && a < b {
                        if a < before.len() - 1 {
                            assert(lex_lt(before[a], before[before.len() - 1]));
                            lemma_lex_transitive(before[a], before[before.len() - 1], after[b]);
                        }
                    } else {
                        assert(after[a] == before[a] && after[b] == before[b]);
                    }
                }
                assert forall|k: Seq<char>| #[trigger] after.contains(k) <==> post.contains(k) by {
                    if after.contains(k) {
                        let m = choose|m: int| 0 <= m < after.len() && after[m] == k;
                        if m < before.len() {
                            assert(before[m] == k);
                            assert(before.contains(k));
                            assert(pre.contains(k));
                            let q = choose|q: int| 0 <= q < pre.len() && pre[q] == k;
                            assert(post[q] == k);
                        } else {
                            assert(post[post.len() - 1] == k);
                        }
                    }
                    if post.contains(k) {
                        let q = choose|q: int| 0 <= q < post.len() && post[q] == k;
                        if q < pre.len() {
                            assert(pre[q] == k);
                            assert(pre.contains(k));
                            assert(before.contains(k));
                            let m = choose|m: int| 0 <= m < before.len() && before[m] == k;
                            assert(after[m] == k);
                        } else {
                            assert(after[after.len() - 1] == k);
                        }
                    }
                }
            }
        } else {
            proof {
                assert forall|k: Seq<char>| #[trigger] before.contains(k) <==> post.contains(k) by {
                    if post.contains(k) {
                        let q = choose|q: int| 0 <= q < post.len() && post[q] == k;
                        if q < pre.len() {
                            assert(pre[q] == k);
                            assert(pre.contains(k));
                        } else {
                            assert(before[before.len() - 1] == k);
                        }
                    }
                    if before.contains(k) {
                        assert(pre.contains(k));
                        let q = choose|q: int| 0 <= q < pre.len() && pre[q] == k;
                        assert(post[q] == k);
                    }
                }
            }
        }
        i += 1;
    }
    assert(v@.subrange(0, v@.len() as int) =~= v@);
    out
}

} // verus!
