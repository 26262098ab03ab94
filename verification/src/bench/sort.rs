//! Sorting samples.

use vstd::prelude::*;
use vstd::seq_lib::lemma_multiset_commutative;

verus! {

/// Samples with a total order.
pub trait Sample: Copy {
    /// Whether `self` comes before `other`, or is as large.
    spec fn le(self, other: Self) -> bool;

    proof fn le_is_total(a: Self, b: Self)
        ensures
            a.le(b) || b.le(a),
    ;

    proof fn le_is_transitive(a: Self, b: Self, c: Self)
        requires
            a.le(b),
            b.le(c),
        ensures
            a.le(c),
    ;

    /// Whether `self` comes before `other`, or is as large.
    fn at_most(&self, other: &Self) -> (r: bool)
        ensures
            r == self.le(*other),
    ;
}

/// No sample is larger than one that comes after it.
pub open spec fn is_sorted<S: Sample>(s: Seq<S>) -> bool {
    forall|i: int, j: int| 0 <= i <= j < s.len() ==> (#[trigger] s[i]).le(#[trigger] s[j])
}

/// Nothing in `lower` is larger than anything in `upper` from `from` on.
spec fn precedes<S: Sample>(lower: Seq<S>, upper: Seq<S>, from: int) -> bool {
    forall|i: int, j: int|
        0 <= i < lower.len() && from <= j < upper.len() ==> (#[trigger] lower[i]).le(
            #[trigger] upper[j],
        )
}

proof fn lemma_push_sorted<S: Sample>(s: Seq<S>, x: S)
    requires
        is_sorted(s),
        forall|i: int| 0 <= i < s.len() ==> (#[trigger] s[i]).le(x),
    ensures
        is_sorted(s.push(x)),
{
    S::le_is_total(x, x);
    let t = s.push(x);
    assert forall|i: int, j: int| 0 <= i <= j < t.len() implies (#[trigger] t[i]).le(
        #[trigger] t[j],
    ) by {}
}

/// Merges two sorted runs.
fn merge<S: Sample>(a: &Vec<S>, b: &Vec<S>) -> (out: Vec<S>)
    requires
        is_sorted(a@),
        is_sorted(b@),
        a@.len() + b@.len() <= usize::MAX,
    ensures
        is_sorted(out@),
        out@.to_multiset() == (a@ + b@).to_multiset(),
        out@.len() == a@.len() + b@.len(),
{
    let mut out: Vec<S> = Vec::with_capacity(a.len() + b.len());
    let mut i: usize = 0;
    let mut j: usize = 0;
    proof {
        assert(a@.take(0) + b@.take(0) =~= out@);
    }
    while i < a.len() || j < b.len()
        invariant
            i <= a@.len(),
            j <= b@.len(),
            out@.len() == i + j,
            is_sorted(a@),
            is_sorted(b@),
            is_sorted(out@),
            precedes(out@, a@, i as int),
            precedes(out@, b@, j as int),
            out@.to_multiset() == (a@.take(i as int) + b@.take(j as int)).to_multiset(),
        decreases a@.len() - i + b@.len() - j,
    {
        broadcast use vstd::seq_lib::group_to_multiset_ensures;

        let from_a: bool = j == b.len() || (i < a.len() && a[i].at_most(&b[j]));
        let ghost before = out@;
        let ghost taken_a = a@.take(i as int);
        let ghost taken_b = b@.take(j as int);
        if from_a {
            let x: S = a[i];
            proof {
                lemma_push_sorted(out@, x);
                assert forall|k: int| j <= k < b@.len() implies x.le(#[trigger] b@[k]) by {
                    if j < b@.len() {
                        S::le_is_transitive(x, b@[j as int], b@[k]);
                    }
                }
                assert(a@.take(i + 1) =~= taken_a.push(x));
                lemma_multiset_commutative(taken_a, taken_b);
                lemma_multiset_commutative(taken_a.push(x), taken_b);
                assert((taken_a.push(x) + taken_b).to_multiset() =~= (taken_a
                    + taken_b).to_multiset().insert(x));
            }
            out.push(x);
            i += 1;
        } else {
            let x: S = b[j];
            proof {
                if i < a@.len() {
                    S::le_is_total(a@[i as int], x);
                }
                lemma_push_sorted(out@, x);
                assert forall|k: int| i <= k < a@.len() implies x.le(#[trigger] a@[k]) by {
                    S::le_is_transitive(x, a@[i as int], a@[k]);
                }
                assert(b@.take(j + 1) =~= taken_b.push(x));
                lemma_multiset_commutative(taken_a, taken_b);
                lemma_multiset_commutative(taken_a, taken_b.push(x));
                assert((taken_a + taken_b.push(x)).to_multiset() =~= (taken_a
                    + taken_b).to_multiset().insert(x));
            }
            out.push(x);
            j += 1;
        }
    }
    proof {
        assert(a@.take(i as int) =~= a@);
        assert(b@.take(j as int) =~= b@);
    }
    out
}

/// The samples from `lo` up to `hi`, sorted.
fn sorted_range<S: Sample>(v: &Vec<S>, lo: usize, hi: usize) -> (out: Vec<S>)
    requires
        lo <= hi <= v@.len(),
    ensures
        is_sorted(out@),
        out@.to_multiset() == v@.subrange(lo as int, hi as int).to_multiset(),
        out@.len() == hi - lo,
    decreases hi - lo,
{
    broadcast use vstd::seq_lib::group_to_multiset_ensures;

    if hi - lo <= 1 {
        let mut out: Vec<S> = Vec::new();
        if lo < hi {
            out.push(v[lo]);
            proof {
                S::le_is_total(v@[lo as int], v@[lo as int]);
            }
        }
        assert(out@ =~= v@.subrange(lo as int, hi as int));
        return out;
    }
    let mid: usize = lo + (hi - lo) / 2;
    let left: Vec<S> = sorted_range(v, lo, mid);
    let right: Vec<S> = sorted_range(v, mid, hi);
    let out: Vec<S> = merge(&left, &right);
    proof {
        let l = v@.subrange(lo as int, mid as int);
        let r = v@.subrange(mid as int, hi as int);
        lemma_multiset_commutative(left@, right@);
        lemma_multiset_commutative(l, r);
        assert(l + r =~= v@.subrange(lo as int, hi as int));
    }
    out
}

/// Sorts `v`.
pub fn sort_samples<S: Sample>(v: &mut Vec<S>)
    ensures
        is_sorted(final(v)@),
        final(v)@.to_multiset() == old(v)@.to_multiset(),
        final(v)@.len() == old(v)@.len(),
{
    let out: Vec<S> = sorted_range(v, 0, v.len());
    assert(v@.subrange(0, v@.len() as int) =~= v@);
    *v = out;
}

impl Sample for u64 {
    open spec fn le(self, other: Self) -> bool {
        self <= other
    }

    proof fn le_is_total(a: Self, b: Self) {
    }

    proof fn le_is_transitive(a: Self, b: Self, c: Self) {
    }

    fn at_most(&self, other: &Self) -> (r: bool) {
        *self <= *other
    }
}

} // verus!
