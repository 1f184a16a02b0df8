//! General facts about `Seq::filter` and subsequences, used by the laws of
//! the crate root.
use vstd::prelude::*;

verus! {

/// `a` is a subsequence of `b`: `a` is `b` with some elements left out and
/// the rest kept in order. Matching is done greedily from the back.
pub open spec fn is_subsequence<A>(a: Seq<A>, b: Seq<A>) -> bool
    decreases b.len(),
{
    if b.len() == 0 {
        a.len() == 0
    } else if a.len() > 0 && a.last() == b.last() {
        is_subsequence(a.drop_last(), b.drop_last())
    } else {
        is_subsequence(a, b.drop_last())
    }
}

/// Filtering keeps only elements that satisfy the predicate.
pub proof fn lemma_filter_all<A>(s: Seq<A>, p: spec_fn(A) -> bool)
    ensures
        forall|i: int| 0 <= i < s.filter(p).len() ==> p(#[trigger] s.filter(p)[i]),
{
    broadcast use vstd::seq_lib::group_filter_ensures;
}

/// Filtering one more element at the back.
pub proof fn lemma_filter_push<A>(s: Seq<A>, x: A, p: spec_fn(A) -> bool)
    ensures
        s.push(x).filter(p) == if p(x) { s.filter(p).push(x) } else { s.filter(p) },
{
    reveal(Seq::filter);
    assert(s.push(x).drop_last() == s);
}

/// A sequence whose elements all satisfy the predicate is its own filter.
pub proof fn lemma_filter_keeps_all<A>(s: Seq<A>, p: spec_fn(A) -> bool)
    requires
        forall|i: int| 0 <= i < s.len() ==> p(#[trigger] s[i]),
    ensures
        s.filter(p) == s,
    decreases s.len(),
{
    reveal(Seq::filter);
    if s.len() > 0 {
        lemma_filter_keeps_all(s.drop_last(), p);
        assert(s.drop_last().push(s.last()) == s);
    }
}

/// Filtering twice by two predicates is filtering once by their conjunction.
pub proof fn lemma_filter_filter<A>(s: Seq<A>, p: spec_fn(A) -> bool, q: spec_fn(A) -> bool)
    ensures
        s.filter(p).filter(q) == s.filter(|x: A| p(x) && q(x)),
    decreases s.len(),
{
    reveal(Seq::filter);
    if s.len() > 0 {
        lemma_filter_filter(s.drop_last(), p, q);
        let t = s.drop_last();
        assert(s == t.push(s.last()));
        lemma_filter_push(t, s.last(), p);
        lemma_filter_push(t.filter(p), s.last(), q);
        lemma_filter_push(t, s.last(), |x: A| p(x) && q(x));
    }
}

/// Filtering is idempotent.
pub proof fn lemma_filter_idempotent<A>(s: Seq<A>, p: spec_fn(A) -> bool)
    ensures
        s.filter(p).filter(p) == s.filter(p),
{
    lemma_filter_all(s, p);
    lemma_filter_keeps_all(s.filter(p), p);
}

/// A filter is a subsequence of what was filtered.
pub proof fn lemma_filter_is_subsequence<A>(s: Seq<A>, p: spec_fn(A) -> bool)
    ensures
        is_subsequence(s.filter(p), s),
    decreases s.len(),
{
    reveal(Seq::filter);
    if s.len() > 0 {
        lemma_filter_is_subsequence(s.drop_last(), p);
        let t = s.drop_last();
        assert(s == t.push(s.last()));
        lemma_filter_push(t, s.last(), p);
        if p(s.last()) {
            assert(s.filter(p).drop_last() == t.filter(p));
        } else {
            lemma_filter_all(s, p);
        }
    }
}

/// An element that satisfies the predicate occurs in the filter as often as
/// in what was filtered.
pub proof fn lemma_filter_count<A>(s: Seq<A>, p: spec_fn(A) -> bool, x: A)
    requires
        p(x),
    ensures
        s.filter(p).to_multiset().count(x) == s.to_multiset().count(x),
    decreases s.len(),
{
    broadcast use vstd::seq_lib::group_to_multiset_ensures;
    reveal(Seq::filter);
    if s.len() == 0 {
        assert(s.filter(p) == s);
    } else {
        let t = s.drop_last();
        lemma_filter_count(t, p, x);
        assert(s == t.push(s.last()));
        lemma_filter_push(t, s.last(), p);
    }
}

} // verus!
