use bench_workloads::fan_in::fan_in;
use bench_workloads::sleep_tasks::{sequential_millis, worker, NUM_TASKS, SLEEP_MS};

#[test]
fn sleep_workload_sizes() {
    assert_eq!(NUM_TASKS, 10000);
    assert_eq!(SLEEP_MS, 1);
}

#[test]
fn sleep_worker_hands_back_its_number() {
    assert_eq!(worker(0), 0);
    assert_eq!(worker(42), 42);
    assert_eq!(worker(-7), -7);
    assert_eq!(worker(i64::MAX), i64::MAX);
}

#[test]
fn sleep_results_add_up_to_the_fixed_total() {
    let results: Vec<i64> = (0..NUM_TASKS).map(worker).collect();
    assert_eq!(fan_in(&results), Some(49_995_000));
}

#[test]
fn sleep_results_add_up_in_any_order() {
    let mut results: Vec<i64> = (0..NUM_TASKS).map(worker).collect();
    results.reverse();
    assert_eq!(fan_in(&results), Some(49_995_000));
    results.swap(3, 9000);
    results.swap(17, 4242);
    assert_eq!(fan_in(&results), Some(49_995_000));
}

#[test]
fn sequential_millis_of_the_fixed_workload() {
    assert_eq!(sequential_millis(NUM_TASKS, SLEEP_MS), 10000);
}

#[test]
fn sequential_millis_exact_values() {
    assert_eq!(sequential_millis(3, 250), 750);
    assert_eq!(sequential_millis(1, u64::MAX), u64::MAX);
    assert_eq!(sequential_millis(i64::MAX, 2), 18446744073709551614);
    assert_eq!(sequential_millis(5, 0), 0);
}

#[test]
fn sequential_millis_without_tasks() {
    assert_eq!(sequential_millis(0, 5), 0);
    assert_eq!(sequential_millis(-4, 5), 0);
    assert_eq!(sequential_millis(i64::MIN, u64::MAX), 0);
}
