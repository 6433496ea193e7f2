//! The arithmetic fan-out workload. Task number `t` adds up `i * t` for every
//! `i` below `WORK_PER_TASK`; the run fans `NUM_TASKS` such tasks out and adds
//! their results up again.

use vstd::prelude::*;
use crate::fan_in::{
    lemma_any_order_of_nonnegative, lemma_results_sum_push, partial_sums_fit, results_sum,
};

verus! {

/// The number of tasks of the fixed workload.
pub const NUM_TASKS: i64 = 1000;

/// The number of products that one task adds up.
pub const WORK_PER_TASK: i64 = 10000;

/// `0 + 1 + ... + (WORK_PER_TASK - 1)`: the factor by which a task's result
/// exceeds its number.
pub const WORK_SUM: i64 = 49_995_000;

/// `0 + 1 + ... + (n - 1)`.
pub open spec fn sum_below(n: nat) -> nat
    decreases n,
{
    if n == 0 {
        0
    } else {
        sum_below((n - 1) as nat) + (n - 1) as nat
    }
}

/// The sum of `i * task_id` over the `i` below `work`.
pub open spec fn products_sum(task_id: int, work: nat) -> int
    decreases work,
{
    if work == 0 {
        0
    } else {
        products_sum(task_id, (work - 1) as nat) + (work - 1) * task_id
    }
}

/// The result of task `task_id`.
pub open spec fn worker_spec(task_id: int) -> int {
    task_id * WORK_SUM
}

/// The sum of the results of the tasks `0, 1, ..., num_tasks - 1`.
pub open spec fn total_spec(num_tasks: int) -> int {
    if num_tasks <= 0 {
        0
    } else {
        WORK_SUM * (sum_below(num_tasks as nat) as int)
    }
}

/// The results of the tasks `0, 1, ..., num_tasks - 1`, in the order of their
/// numbers.
pub open spec fn task_results(num_tasks: nat) -> Seq<i64> {
    Seq::new(num_tasks, |id: int| worker_spec(id) as i64)
}

/// Gauss's formula: twice `sum_below(n)` is `n (n - 1)`.
pub proof fn lemma_sum_below_closed(n: nat)
    ensures
        2 * sum_below(n) == n * (n - 1),
    decreases n,
{
    if n > 0 {
        lemma_sum_below_closed((n - 1) as nat);
        assert((n - 1) * (n - 2) + 2 * (n - 1) == n * (n - 1)) by (nonlinear_arith);
    } else {
        assert(0 * (0 - 1) == 0) by (nonlinear_arith);
    }
}

/// `sum_below` never decreases.
pub proof fn lemma_sum_below_monotonic(m: nat, n: nat)
    requires
        m <= n,
    ensures
        sum_below(m) <= sum_below(n),
    decreases n,
{
    if m < n {
        lemma_sum_below_monotonic(m, (n - 1) as nat);
    }
}

/// A task's sum of products is its number times `sum_below(work)`.
pub proof fn lemma_products_sum_closed(task_id: int, work: nat)
    ensures
        products_sum(task_id, work) == task_id * sum_below(work),
    decreases work,
{
    if work > 0 {
        lemma_products_sum_closed(task_id, (work - 1) as nat);
        let s = sum_below((work - 1) as nat) as int;
        assert(task_id * s + (work - 1) * task_id == task_id * (s + (work - 1)))
            by (nonlinear_arith);
    } else {
        assert(task_id * 0 == 0) by (nonlinear_arith);
    }
}

/// The result of a task is the sum of its `WORK_PER_TASK` products.
pub proof fn lemma_worker_spec_is_sum(task_id: int)
    ensures
        sum_below(WORK_PER_TASK as nat) == WORK_SUM,
        worker_spec(task_id) == products_sum(task_id, WORK_PER_TASK as nat),
{
    lemma_sum_below_closed(10000);
    lemma_products_sum_closed(task_id, 10000);
}

/// The total of the fixed workload.
pub proof fn lemma_fixed_total()
    ensures
        total_spec(NUM_TASKS as int) == 24_972_502_500_000,
{
    lemma_sum_below_closed(1000);
}

/// Where the total fits in an `i64`, so does the result of each task, and none
/// is below zero.
proof fn lemma_task_result_fits(num_tasks: nat, id: int)
    requires
        total_spec(num_tasks as int) <= i64::MAX,
        0 <= id < num_tasks,
    ensures
        0 <= worker_spec(id) <= total_spec(num_tasks as int),
        task_results(num_tasks)[id] == worker_spec(id),
{
    lemma_sum_below_monotonic((id + 1) as nat, num_tasks);
}

/// Added up in the order of their numbers, the results of the tasks give the
/// total of the reference run.
pub proof fn lemma_task_results_sum(num_tasks: nat)
    requires
        total_spec(num_tasks as int) <= i64::MAX,
    ensures
        results_sum(task_results(num_tasks)) == total_spec(num_tasks as int),
    decreases num_tasks,
{
    if num_tasks > 0 {
        let fewer = (num_tasks - 1) as nat;
        lemma_sum_below_monotonic(fewer, num_tasks);
        lemma_task_results_sum(fewer);
        lemma_task_result_fits(num_tasks, num_tasks - 1);
        let last = task_results(num_tasks)[num_tasks - 1];
        assert(task_results(fewer).push(last) =~= task_results(num_tasks));
        lemma_results_sum_push(task_results(fewer), last);
    }
}

/// The parallel run agrees with the reference run: in whatever order the
/// results of the tasks `0, 1, ..., num_tasks - 1` come in, adding them up
/// overflows at no point and gives the total of the reference run.
pub proof fn lemma_fan_in_any_order(num_tasks: nat, arrived: Seq<i64>)
    requires
        total_spec(num_tasks as int) <= i64::MAX,
        arrived.to_multiset() == task_results(num_tasks).to_multiset(),
    ensures
        partial_sums_fit(arrived),
        results_sum(arrived) == total_spec(num_tasks as int),
{
    let in_order = task_results(num_tasks);
    lemma_task_results_sum(num_tasks);
    assert forall|id: int| 0 <= id < in_order.len() implies #[trigger] in_order[id] >= 0 by {
        lemma_task_result_fits(num_tasks, id);
    }
    lemma_any_order_of_nonnegative(in_order, arrived);
}

/// One step of a task's sum: with the sum so far `t * s` and `s + i` at most
/// `hi`, neither the product `i * t` nor the new sum `t * (s + i)` is larger
/// in magnitude than `t * hi`.
proof fn lemma_worker_step(t: int, s: int, i: int, hi: int)
    requires
        0 <= s,
        0 <= i,
        s + i <= hi,
    ensures
        i * t == t * i,
        t * s + i * t == t * (s + i),
        t >= 0 ==> 0 <= i * t <= t * (s + i) <= t * hi,
        t <= 0 ==> t * hi <= t * (s + i) <= i * t <= 0,
{
    assert(i * t == t * i) by (nonlinear_arith);
    assert(t * s + t * i == t * (s + i)) by (nonlinear_arith);
    assert(t >= 0 ==> 0 <= t * i <= t * (s + i) <= t * hi) by (nonlinear_arith)
        requires
            0 <= s,
            0 <= i,
            s + i <= hi,
    ;
    assert(t <= 0 ==> t * hi <= t * (s + i) <= t * i <= 0) by (nonlinear_arith)
        requires
            0 <= s,
            0 <= i,
            s + i <= hi,
    ;
}

/// The work of one task: adds up `i * task_id` for `i` from zero up to, and
/// without, `WORK_PER_TASK`. The result has to fit in an `i64`; no partial sum
/// is larger in magnitude.
pub fn worker(task_id: i64) -> (result: i64)
    requires
        i64::MIN <= worker_spec(task_id as int) <= i64::MAX,
    ensures
        result == worker_spec(task_id as int),
{
    let mut result: i64 = 0;
    let mut i: i64 = 0;
    proof {
        lemma_sum_below_closed(10000);
        assert(task_id * 0 == 0) by (nonlinear_arith);
    }
    while i < WORK_PER_TASK
        invariant
            0 <= i <= WORK_PER_TASK,
            sum_below(10000) == WORK_SUM,
            i64::MIN <= task_id * WORK_SUM <= i64::MAX,
            result == task_id * sum_below(i as nat),
        decreases WORK_PER_TASK - i,
    {
        proof {
            lemma_sum_below_monotonic((i + 1) as nat, 10000);
            lemma_worker_step(task_id as int, sum_below(i as nat) as int, i as int, WORK_SUM as int);
        }
        result += i * task_id;
        i += 1;
    }
    result
}

/// The reference run: the tasks `0, 1, ..., num_tasks - 1` one after the
/// other, their results added up in that order. The total has to fit in an
/// `i64`.
pub fn sequential_total(num_tasks: i64) -> (total: i64)
    requires
        total_spec(num_tasks as int) <= i64::MAX,
    ensures
        total == total_spec(num_tasks as int),
{
    let mut total: i64 = 0;
    let mut id: i64 = 0;
    while id < num_tasks
        invariant
            0 <= id,
            id <= num_tasks || id == 0,
            total_spec(num_tasks as int) <= i64::MAX,
            total == total_spec(id as int),
        decreases num_tasks - id,
    {
        proof {
            let s = sum_below(id as nat) as int;
            lemma_sum_below_monotonic((id + 1) as nat, num_tasks as nat);
            assert(WORK_SUM * s + id * WORK_SUM == WORK_SUM * (s + id));
        }
        total += worker(id);
        id += 1;
    }
    total
}

} // verus!
