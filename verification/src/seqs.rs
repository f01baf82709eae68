//! Facts about filtered sequences.

use vstd::prelude::*;

verus! {

/// An element of a filtered sequence stands in the sequence and passes the
/// filter.
pub proof fn lemma_filter_source<T>(s: Seq<T>, keeps: spec_fn(T) -> bool, i: int)
    requires
        0 <= i < s.filter(keeps).len(),
    ensures
        keeps(s.filter(keeps)[i]),
        exists|a: int| 0 <= a < s.len() && s[a] == s.filter(keeps)[i],
    decreases s.len(),
{
    reveal(Seq::filter);
    if s.len() > 0 {
        let front = s.drop_last();
        let f = front.filter(keeps);
        if i < f.len() {
            lemma_filter_source(front, keeps, i);
            let a = choose|a: int| 0 <= a < front.len() && front[a] == f[i];
            assert(s[a] == s.filter(keeps)[i]);
        } else {
            assert(s[s.len() - 1] == s.filter(keeps)[i]);
        }
    }
}

/// Two elements of a filtered sequence stand in the sequence in the same
/// order, at two different places.
pub proof fn lemma_filter_keeps_order<T>(s: Seq<T>, keeps: spec_fn(T) -> bool, i: int, j: int)
    requires
        0 <= i < j < s.filter(keeps).len(),
    ensures
        exists|a: int, b: int|
            0 <= a < b < s.len() && s[a] == s.filter(keeps)[i] && s[b] == s.filter(keeps)[j],
    decreases s.len(),
{
    reveal(Seq::filter);
    if s.len() > 0 {
        let front = s.drop_last();
        let f = front.filter(keeps);
        if j < f.len() {
            lemma_filter_keeps_order(front, keeps, i, j);
            let (a, b) = choose|a: int, b: int|
                0 <= a < b < front.len() && front[a] == f[i] && front[b] == f[j];
            assert(0 <= a < b < s.len() && s[a] == s.filter(keeps)[i] && s[b] == s.filter(
                keeps,
            )[j]);
        } else {
            lemma_filter_source(front, keeps, i);
            let a = choose|a: int| 0 <= a < front.len() && front[a] == f[i];
            let b = s.len() - 1;
            assert(0 <= a < b < s.len() && s[a] == s.filter(keeps)[i] && s[b] == s.filter(
                keeps,
            )[j]);
        }
    }
}

/// An element of a sequence that passes a filter stands in the filtered
/// sequence.
pub proof fn lemma_filter_holds<T>(s: Seq<T>, keeps: spec_fn(T) -> bool, a: int)
    requires
        0 <= a < s.len(),
        keeps(s[a]),
    ensures
        exists|i: int| 0 <= i < s.filter(keeps).len() && s.filter(keeps)[i] == s[a],
    decreases s.len(),
{
    reveal(Seq::filter);
    let front = s.drop_last();
    let f = front.filter(keeps);
    if a < s.len() - 1 {
        lemma_filter_holds(front, keeps, a);
        let i = choose|i: int| 0 <= i < f.len() && f[i] == front[a];
        assert(s.filter(keeps)[i] == s[a]);
    } else {
        assert(s.filter(keeps)[f.len() as int] == s[a]);
    }
}

} // verus!
