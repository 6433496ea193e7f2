//! The sleeping workload: every task waits for a fixed time and then hands
//! back its own number. The waiting is the caller's business; here is what
//! the tasks yield, what their results add up to, and how long the waits
//! would take one after the other.

use vstd::prelude::*;
use crate::fan_in::{
    lemma_any_order_of_nonnegative, lemma_results_sum_push, partial_sums_fit, results_sum,
};
use crate::fan_out::{lemma_sum_below_closed, lemma_sum_below_monotonic, sum_below};

verus! {

/// The number of tasks of the fixed workload.
pub const NUM_TASKS: i64 = 10000;

/// The time that each task of the fixed workload waits, in milliseconds.
pub const SLEEP_MS: u64 = 1;

/// The results of the tasks `0, 1, ..., num_tasks - 1`, in the order of their
/// numbers.
pub open spec fn task_results(num_tasks: nat) -> Seq<i64> {
    Seq::new(num_tasks, |id: int| id as i64)
}

/// The sum of the waits of `num_tasks` tasks of `sleep_ms` milliseconds each;
/// zero where there is no task.
pub open spec fn sequential_millis_spec(num_tasks: int, sleep_ms: int) -> int {
    if num_tasks <= 0 {
        0
    } else {
        num_tasks * sleep_ms
    }
}

/// Added up in the order of their numbers, the results of the tasks give
/// `0 + 1 + ... + (num_tasks - 1)`.
pub proof fn lemma_task_results_sum(num_tasks: nat)
    requires
        num_tasks <= i64::MAX,
    ensures
        results_sum(task_results(num_tasks)) == sum_below(num_tasks),
    decreases num_tasks,
{
    if num_tasks > 0 {
        let fewer = (num_tasks - 1) as nat;
        lemma_task_results_sum(fewer);
        let last = fewer as i64;
        assert(task_results(fewer).push(last) =~= task_results(num_tasks));
        lemma_results_sum_push(task_results(fewer), last);
    }
}

/// In whatever order the tasks finish, adding up their results overflows at
/// no point and gives `0 + 1 + ... + (num_tasks - 1)`.
pub proof fn lemma_fan_in_any_order(num_tasks: nat, arrived: Seq<i64>)
    requires
        num_tasks <= i64::MAX,
        sum_below(num_tasks) <= i64::MAX,
        arrived.to_multiset() == task_results(num_tasks).to_multiset(),
    ensures
        partial_sums_fit(arrived),
        results_sum(arrived) == sum_below(num_tasks),
{
    lemma_task_results_sum(num_tasks);
    lemma_any_order_of_nonnegative(task_results(num_tasks), arrived);
}

/// The total of the fixed workload.
pub proof fn lemma_fixed_total()
    ensures
        sum_below(NUM_TASKS as nat) == 49_995_000,
{
    lemma_sum_below_closed(10000);
}

/// What task `task_id` hands back once its wait is over: its own number.
pub fn worker(task_id: i64) -> (result: i64)
    ensures
        result == task_id,
{
    task_id
}

/// The time that the tasks would take if each waited only after the one
/// before it had finished: the sum of their waits, in milliseconds. The sum
/// has to fit in a `u64`.
pub fn sequential_millis(num_tasks: i64, sleep_ms: u64) -> (millis: u64)
    requires
        sequential_millis_spec(num_tasks as int, sleep_ms as int) <= u64::MAX,
    ensures
        millis == sequential_millis_spec(num_tasks as int, sleep_ms as int),
{
    if num_tasks <= 0 {
        0
    } else {
        num_tasks as u64 * sleep_ms
    }
}

} // verus!
