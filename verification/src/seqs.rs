//! Facts about filtered sequences.

use vstd::prelude::*;

verus! {

/// Filtering a sequence extended by one element.
pub proof fn lemma_filter_push<A>(s: Seq<A>, p: spec_fn(A) -> bool, a: A)
    ensures
        s.push(a).filter(p) == if p(a) {
            s.filter(p).push(a)
        } else {
            s.filter(p)
        },
{
    reveal(Seq::filter);
    assert(s.push(a).drop_last() =~= s);
}

/// Filtering a prefix that grows by one element.
pub proof fn lemma_filter_take<A>(s: Seq<A>, p: spec_fn(A) -> bool, i: int)
    requires
        0 <= i < s.len(),
    ensures
        s.take(i + 1).filter(p) == if p(s[i]) {
            s.take(i).filter(p).push(s[i])
        } else {
            s.take(i).filter(p)
        },
{
    assert(s.take(i + 1) =~= s.take(i).push(s[i]));
    lemma_filter_push(s.take(i), p, s[i]);
}

/// Filtering by `q` after filtering by `p` is filtering by `q` alone,
/// where `q` implies `p`.
pub proof fn lemma_filter_narrow<A>(s: Seq<A>, p: spec_fn(A) -> bool, q: spec_fn(A) -> bool)
    requires
        forall|a: A| #[trigger] q(a) ==> p(a),
    ensures
        s.filter(p).filter(q) == s.filter(q),
    decreases s.len(),
{
    if s.len() == 0 {
        reveal(Seq::filter);
        assert(s.filter(p) =~= Seq::<A>::empty());
        assert(s.filter(q) =~= Seq::<A>::empty());
        assert(Seq::<A>::empty().filter(q) =~= Seq::<A>::empty());
    } else {
        let front = s.drop_last();
        let a = s.last();
        assert(s =~= front.push(a));
        lemma_filter_narrow(front, p, q);
        lemma_filter_push(front, p, a);
        lemma_filter_push(front, q, a);
        if p(a) {
            lemma_filter_push(front.filter(p), q, a);
        }
    }
}

/// Every element of a filtered sequence is an element of the sequence and
/// meets the filter.
pub proof fn lemma_filter_member<A>(s: Seq<A>, p: spec_fn(A) -> bool, k: int)
    requires
        0 <= k < s.filter(p).len(),
    ensures
        p(s.filter(p)[k]),
        exists|j: int| 0 <= j < s.len() && s[j] == s.filter(p)[k],
    decreases s.len(),
{
    reveal(Seq::filter);
    if s.len() > 0 {
        let front = s.drop_last();
        let a = s.last();
        assert(s =~= front.push(a));
        lemma_filter_push(front, p, a);
        if p(a) && k == front.filter(p).len() {
            assert(s[s.len() - 1] == s.filter(p)[k]);
        } else {
            lemma_filter_member(front, p, k);
            let j = choose|j: int| 0 <= j < front.len() && front[j] == front.filter(p)[k];
            assert(s[j] == s.filter(p)[k]);
        }
    }
}

} // verus!
