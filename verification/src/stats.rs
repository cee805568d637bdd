//! Order statistics and means over a block of samples, and the correction
//! that takes the clock's own cost out of a reported value.

use vstd::prelude::*;
use vstd::relations::{sorted_by, total_ordering};
use vstd::seq_lib::lemma_sorted_unique;

verus! {

/// The order `<=` on samples.
pub open spec fn at_most() -> spec_fn(u64, u64) -> bool {
    |a: u64, b: u64| a <= b
}

/// The samples of `s` in ascending order.
pub open spec fn ascending(s: Seq<u64>) -> Seq<u64> {
    s.sort_by(at_most())
}

/// The sum of the samples of `s`.
pub open spec fn sum(s: Seq<u64>) -> nat
    decreases s.len(),
{
    if s.len() == 0 {
        0
    } else {
        sum(s.drop_last()) + s.last() as nat
    }
}

/// The mean of the samples of `s`, rounded down; 0 for no samples.
pub open spec fn mean(s: Seq<u64>) -> nat {
    if s.len() == 0 {
        0
    } else {
        sum(s) / s.len()
    }
}

/// The smallest sample of a non-empty `s`.
pub open spec fn smallest(s: Seq<u64>) -> u64 {
    ascending(s)[0]
}

/// The largest sample of a non-empty `s`.
pub open spec fn largest(s: Seq<u64>) -> u64 {
    ascending(s)[s.len() - 1]
}

/// The upper median of a non-empty `s`: the sample at place `len / 2` of the
/// ascending order.
pub open spec fn median(s: Seq<u64>) -> u64 {
    ascending(s)[(s.len() / 2) as int]
}

/// A raw value with the clock's own cost taken out, and never below zero:
/// `max(raw - overhead, 0)`.
pub open spec fn corrected(raw: nat, overhead: nat) -> nat {
    if raw >= overhead {
        (raw - overhead) as nat
    } else {
        0
    }
}

/// `<=` on samples is a total order.
pub proof fn lemma_at_most_is_total()
    ensures
        total_ordering(at_most()),
{
    let leq = at_most();
    assert(forall|a: u64| #[trigger] leq(a, a));
    assert(forall|a: u64, b: u64| #[trigger] leq(a, b) && #[trigger] leq(b, a) ==> a == b);
    assert(forall|a: u64, b: u64, c: u64|
        #[trigger] leq(a, b) && #[trigger] leq(b, c) ==> leq(a, c));
    assert(forall|a: u64, b: u64| #[trigger] leq(a, b) || #[trigger] leq(b, a));
}

/// `ascending(s)` holds the samples of `s`, each as often as `s` does, in
/// ascending order.
pub proof fn lemma_ascending(s: Seq<u64>)
    ensures
        ascending(s).to_multiset() == s.to_multiset(),
        ascending(s).len() == s.len(),
        forall|i: int, j: int|
            0 <= i <= j < s.len() ==> #[trigger] ascending(s)[i] <= #[trigger] ascending(s)[j],
        forall|i: int| 0 <= i < s.len() ==> ascending(s).contains(#[trigger] s[i]),
        forall|i: int| 0 <= i < s.len() ==> s.contains(#[trigger] ascending(s)[i]),
{
    broadcast use vstd::seq_lib::group_to_multiset_ensures;

    lemma_at_most_is_total();
    s.lemma_sort_by_ensures(at_most());
    let a = ascending(s);
    assert(a.to_multiset() =~= s.to_multiset());
    assert(a.len() == a.to_multiset().len());
    assert(s.len() == s.to_multiset().len());
    assert forall|i: int, j: int| 0 <= i <= j < s.len() implies #[trigger] a[i]
        <= #[trigger] a[j] by {
        if i < j {
            assert(at_most()(a[i], a[j]));
        }
    }
    assert forall|i: int| 0 <= i < s.len() implies a.contains(#[trigger] s[i]) by {
        assert(s.contains(s[i]));
        assert(s.to_multiset().count(s[i]) > 0);
    }
    assert forall|i: int| 0 <= i < s.len() implies s.contains(#[trigger] a[i]) by {
        assert(a.contains(a[i]));
        assert(a.to_multiset().count(a[i]) > 0);
    }
}

/// A sequence in ascending order that holds the samples of `s`, each as often
/// as `s` does, is `ascending(s)`.
pub proof fn lemma_ascending_is_unique(s: Seq<u64>, sorted: Seq<u64>)
    requires
        sorted.to_multiset() == s.to_multiset(),
        forall|i: int, j: int| 0 <= i <= j < sorted.len() ==> sorted[i] <= sorted[j],
    ensures
        sorted == ascending(s),
{
    lemma_at_most_is_total();
    s.lemma_sort_by_ensures(at_most());
    assert(sorted_by(sorted, at_most())) by {
        assert forall|i: int, j: int| 0 <= i < j < sorted.len() implies #[trigger] at_most()(
            sorted[i],
            sorted[j],
        ) by {}
    }
    lemma_sorted_unique(sorted, ascending(s), at_most());
}

/// The value that is at most every sample of `s` and is one of them is the
/// smallest sample of `s`.
pub proof fn lemma_smallest_is(s: Seq<u64>, m: u64)
    requires
        s.contains(m),
        forall|i: int| 0 <= i < s.len() ==> m <= #[trigger] s[i],
    ensures
        m == smallest(s),
{
    lemma_ascending(s);
    let a = ascending(s);
    assert(s.contains(a[0]));
    assert(a.contains(m)) by {
        let i = choose|i: int| 0 <= i < s.len() && s[i] == m;
        assert(a.contains(s[i]));
    }
    let j = choose|j: int| 0 <= j < a.len() && a[j] == m;
    assert(a[0] <= a[j]);
    let k = choose|k: int| 0 <= k < s.len() && s[k] == a[0];
    assert(m <= s[k]);
}

/// The value that is at least every sample of `s` and is one of them is the
/// largest sample of `s`.
pub proof fn lemma_largest_is(s: Seq<u64>, m: u64)
    requires
        s.contains(m),
        forall|i: int| 0 <= i < s.len() ==> #[trigger] s[i] <= m,
    ensures
        m == largest(s),
{
    lemma_ascending(s);
    let a = ascending(s);
    let top = a[s.len() - 1];
    assert(s.contains(top));
    assert(a.contains(m)) by {
        let i = choose|i: int| 0 <= i < s.len() && s[i] == m;
        assert(a.contains(s[i]));
    }
    let j = choose|j: int| 0 <= j < a.len() && a[j] == m;
    assert(a[j] <= a[s.len() - 1]);
    let k = choose|k: int| 0 <= k < s.len() && s[k] == top;
    assert(s[k] <= m);
}

/// The sum of samples that all lie between `lo` and `hi` lies between
/// `len * lo` and `len * hi`.
pub proof fn lemma_sum_bounds(s: Seq<u64>, lo: nat, hi: nat)
    requires
        forall|i: int| 0 <= i < s.len() ==> lo <= #[trigger] s[i] <= hi,
    ensures
        s.len() * lo <= sum(s) <= s.len() * hi,
    decreases s.len(),
{
    if s.len() > 0 {
        let rest = s.drop_last();
        lemma_sum_bounds(rest, lo, hi);
        assert(lo <= s[s.len() - 1] <= hi);
        assert(s.len() * lo == rest.len() * lo + lo) by (nonlinear_arith)
            requires
                s.len() == rest.len() + 1,
        ;
        assert(s.len() * hi == rest.len() * hi + hi) by (nonlinear_arith)
            requires
                s.len() == rest.len() + 1,
        ;
    }
}

/// The mean of a non-empty block of samples lies between its smallest and its
/// largest sample.
pub proof fn lemma_mean_between(s: Seq<u64>)
    requires
        s.len() > 0,
    ensures
        smallest(s) <= mean(s) <= largest(s),
{
    lemma_ascending(s);
    let a = ascending(s);
    let lo = smallest(s) as nat;
    let hi = largest(s) as nat;
    let n = s.len();
    assert forall|i: int| 0 <= i < s.len() implies lo <= #[trigger] s[i] <= hi by {
        assert(a.contains(s[i]));
        let j = choose|j: int| 0 <= j < a.len() && a[j] == s[i];
        assert(a[0] <= a[j]);
        assert(a[j] <= a[n - 1]);
    }
    lemma_sum_bounds(s, lo, hi);
    let total = sum(s);
    assert(lo <= total / n <= hi) by (nonlinear_arith)
        requires
            n > 0,
            n * lo <= total <= n * hi,
    ;
}

/// The order statistics of a non-empty block are ordered, and stay so once
/// the overhead is taken out of each: the smallest is at most the median,
/// the median at most the largest, and the mean lies between the smallest
/// and the largest.
pub proof fn lemma_statistics_ordered(s: Seq<u64>, overhead: nat)
    requires
        s.len() > 0,
    ensures
        smallest(s) <= median(s) <= largest(s),
        smallest(s) <= mean(s) <= largest(s),
        corrected(smallest(s) as nat, overhead) <= corrected(median(s) as nat, overhead)
            <= corrected(largest(s) as nat, overhead),
        corrected(smallest(s) as nat, overhead) <= corrected(mean(s), overhead) <= corrected(
            largest(s) as nat,
            overhead,
        ),
{
    lemma_ascending(s);
    lemma_mean_between(s);
    let a = ascending(s);
    let mid = (s.len() / 2) as int;
    assert(a[0] <= a[mid]);
    assert(a[mid] <= a[s.len() - 1]);
}

/// The sum of the samples of `v`.
pub(crate) fn sum_samples(v: &Vec<u64>) -> (total: u128)
    ensures
        total == sum(v@),
        total <= v@.len() * u64::MAX,
{
    let mut total: u128 = 0;
    let mut i: usize = 0;
    while i < v.len()
        invariant
            i <= v@.len(),
            total == sum(v@.take(i as int)),
            total <= i * u64::MAX,
        decreases v@.len() - i,
    {
        proof {
            assert(v@.take(i + 1).drop_last() =~= v@.take(i as int));
            assert((i + 1) * u64::MAX == i * u64::MAX + u64::MAX) by (nonlinear_arith);
            assert(i * u64::MAX <= usize::MAX * u64::MAX) by (nonlinear_arith)
                requires
                    i <= usize::MAX,
            ;
            assert(usize::MAX * u64::MAX + u64::MAX <= u128::MAX) by (nonlinear_arith)
                requires
                    usize::MAX <= u64::MAX,
            ;
        }
        total = total + v[i] as u128;
        i = i + 1;
    }
    proof {
        assert(v@.take(v@.len() as int) =~= v@);
    }
    total
}

} // verus!
