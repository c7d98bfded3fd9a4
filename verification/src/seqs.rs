//! Searching a table in its row order.
use vstd::prelude::*;
use crate::tables::rows;

verus! {

/// `i` is the first position in `s` whose element satisfies `p`.
pub open spec fn is_first<T>(s: Seq<T>, p: spec_fn(T) -> bool, i: int) -> bool {
    &&& 0 <= i < s.len()
    &&& p(s[i])
    &&& forall|j: int| 0 <= j < i ==> !p(#[trigger] s[j])
}

/// The first position in `s` whose element satisfies `p`, if there is one.
pub open spec fn first_match<T>(s: Seq<T>, p: spec_fn(T) -> bool) -> Option<int> {
    if exists|i: int| is_first(s, p, i) {
        Some(choose|i: int| is_first(s, p, i))
    } else {
        None
    }
}

pub proof fn lemma_first_match_found<T>(s: Seq<T>, p: spec_fn(T) -> bool, k: int)
    requires
        is_first(s, p, k),
    ensures
        first_match(s, p) == Some(k),
{
    let c = choose|i: int| is_first(s, p, i);
    assert(is_first(s, p, c));
    if c < k {
        assert(!p(s[c]));
    } else if c > k {
        assert(!p(s[k]));
    }
}

pub proof fn lemma_first_match_none<T>(s: Seq<T>, p: spec_fn(T) -> bool)
    requires
        forall|j: int| 0 <= j < s.len() ==> !p(#[trigger] s[j]),
    ensures
        first_match(s, p) is None,
{
    if exists|i: int| is_first(s, p, i) {
        let c = choose|i: int| is_first(s, p, i);
        assert(p(s[c]));
    }
}

/// The first match lies at a position whose element satisfies `p`, and no
/// earlier element does; no match means no element satisfies `p`.
pub proof fn lemma_first_match_spec<T>(s: Seq<T>, p: spec_fn(T) -> bool)
    ensures
        match first_match(s, p) {
            Some(i) => is_first(s, p, i),
            None => forall|j: int| 0 <= j < s.len() ==> !p(#[trigger] s[j]),
        },
    decreases s.len(),
{
    if exists|i: int| is_first(s, p, i) {
    } else {
        assert forall|j: int| 0 <= j < s.len() implies !p(#[trigger] s[j]) by {
            lemma_no_first_no_match(s, p, j);
        }
    }
}

proof fn lemma_no_first_no_match<T>(s: Seq<T>, p: spec_fn(T) -> bool, j: int)
    requires
        !(exists|i: int| is_first(s, p, i)),
        0 <= j < s.len(),
    ensures
        !p(s[j]),
    decreases j,
{
    if p(s[j]) {
        if forall|k: int| 0 <= k < j ==> !p(#[trigger] s[k]) {
            assert(is_first(s, p, j));
        } else {
            let k = choose|k: int| 0 <= k < j && p(#[trigger] s[k]);
            lemma_no_first_no_match(s, p, k);
        }
    }
}

/// Position of the first row of `v` that `pred` accepts, where `pred` decides
/// the predicate `p` on the row's view.
pub(crate) fn find_first<T: View>(v: &Vec<T>, pred: impl Fn(&T) -> bool, Ghost(p): Ghost<spec_fn(T::V) -> bool>) -> (r: Option<usize>)
    requires
        forall|x: &T| #[trigger] pred.requires((x,)),
        forall|x: &T, b: bool| pred.ensures((x,), b) ==> b == p(x@),
    ensures
        first_match(rows(v@), p) == match r {
            Some(i) => Some(i as int),
            None => None,
        },
{
    let ghost s = rows(v@);
    let mut k: usize = 0;
    while k < v.len()
        invariant
            0 <= k <= v@.len(),
            s == rows(v@),
            forall|x: &T| #[trigger] pred.requires((x,)),
            forall|x: &T, b: bool| pred.ensures((x,), b) ==> b == p(x@),
            forall|j: int| 0 <= j < k ==> !p(#[trigger] s[j]),
        decreases v@.len() - k,
    {
        if pred(&v[k]) {
            proof {
                assert(is_first(s, p, k as int));
                lemma_first_match_found(s, p, k as int);
            }
            return Some(k);
        }
        k = k + 1;
    }
    proof {
        lemma_first_match_none(s, p);
    }
    None
}

} // verus!
