//! The fan-in half of a run: the results of the finished tasks are added up
//! into one total. The total is the same in whatever order the results come
//! in.

use vstd::prelude::*;
use vstd::seq_lib::lemma_fold_left_permutation;

verus! {

/// The sum of `results`, added up from the left.
pub open spec fn results_sum(results: Seq<i64>) -> int {
    results.fold_left(0int, |acc: int, r: i64| acc + r)
}

/// Adding up `results` from the left never leaves the range of `i64`.
pub open spec fn partial_sums_fit(results: Seq<i64>) -> bool {
    forall|k: int|
        0 <= k <= results.len() ==> i64::MIN <= #[trigger] results_sum(results.take(k))
            <= i64::MAX
}

/// The sum with one more result is the sum so far and that result.
pub proof fn lemma_results_sum_push(results: Seq<i64>, r: i64)
    ensures
        results_sum(results.push(r)) == results_sum(results) + r,
{
    assert(results.push(r).drop_last() =~= results);
}

/// The total does not depend on the order of the results: two sequences that
/// hold the same results, each as often as the other, have the same sum.
pub proof fn lemma_order_insensitive(a: Seq<i64>, b: Seq<i64>)
    requires
        a.to_multiset() == b.to_multiset(),
    ensures
        results_sum(a) == results_sum(b),
{
    lemma_fold_left_permutation(a, b, |acc: int, r: i64| acc + r, 0int);
}

/// The partial sums of results that are all at least zero lie between zero
/// and the sum of them all.
pub proof fn lemma_partial_sums_of_nonnegative(results: Seq<i64>, k: int)
    requires
        forall|i: int| 0 <= i < results.len() ==> #[trigger] results[i] >= 0,
        0 <= k <= results.len(),
    ensures
        0 <= results_sum(results.take(k)) <= results_sum(results),
    decreases results.len() - k,
{
    if k == results.len() {
        assert(results.take(k) =~= results);
        lemma_sum_of_nonnegative(results);
    } else {
        lemma_partial_sums_of_nonnegative(results, k + 1);
        assert(results.take(k + 1).drop_last() =~= results.take(k));
        assert(results.take(k + 1).last() == results[k]);
        lemma_sum_of_nonnegative(results.take(k));
    }
}

/// Results that are all at least zero have a sum of at least zero.
proof fn lemma_sum_of_nonnegative(results: Seq<i64>)
    requires
        forall|i: int| 0 <= i < results.len() ==> #[trigger] results[i] >= 0,
    ensures
        results_sum(results) >= 0,
    decreases results.len(),
{
    if results.len() > 0 {
        lemma_sum_of_nonnegative(results.drop_last());
    }
}

/// Results that are all at least zero, and whose sum fits in an `i64`, can be
/// added up in any order: no partial sum overflows, and the total is the same.
pub proof fn lemma_any_order_of_nonnegative(expected: Seq<i64>, arrived: Seq<i64>)
    requires
        forall|i: int| 0 <= i < expected.len() ==> #[trigger] expected[i] >= 0,
        results_sum(expected) <= i64::MAX,
        arrived.to_multiset() == expected.to_multiset(),
    ensures
        partial_sums_fit(arrived),
        results_sum(arrived) == results_sum(expected),
{
    broadcast use vstd::seq_lib::group_to_multiset_ensures;

    lemma_order_insensitive(arrived, expected);
    assert forall|i: int| 0 <= i < arrived.len() implies #[trigger] arrived[i] >= 0 by {
        assert(arrived.contains(arrived[i]));
        assert(expected.to_multiset().count(arrived[i]) > 0);
        assert(expected.contains(arrived[i]));
    }
    assert forall|k: int| 0 <= k <= arrived.len() implies i64::MIN <= #[trigger] results_sum(
        arrived.take(k),
    ) <= i64::MAX by {
        lemma_partial_sums_of_nonnegative(arrived, k);
    }
}

/// Adds up the results in the order given. Returns nothing exactly when a
/// partial sum leaves the range of `i64`.
pub fn fan_in(results: &[i64]) -> (total: Option<i64>)
    ensures
        total is Some <==> partial_sums_fit(results@),
        total matches Some(t) ==> t == results_sum(results@),
{
    let mut total: i64 = 0;
    let mut k: usize = 0;
    assert(results@.take(0) =~= Seq::<i64>::empty());
    while k < results.len()
        invariant
            k <= results.len(),
            total == results_sum(results@.take(k as int)),
            forall|j: int|
                0 <= j <= k ==> i64::MIN <= #[trigger] results_sum(results@.take(j)) <= i64::MAX,
        decreases results.len() - k,
    {
        proof {
            lemma_results_sum_push(results@.take(k as int), results[k as int]);
            assert(results@.take(k as int).push(results[k as int]) =~= results@.take(k + 1));
        }
        match total.checked_add(results[k]) {
            Some(next) => {
                total = next;
            },
            None => {
                return None;
            },
        }
        k += 1;
    }
    assert(results@.take(results.len() as int) =~= results@);
    Some(total)
}

} // verus!
