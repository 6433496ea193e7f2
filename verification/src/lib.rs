//! Small, self-contained workload kernels for timing a runtime: recursive and
//! tail-recursive Fibonacci, an arithmetic fan-out worker with the fan-in of
//! its results, a SHA-256 hashing worker, tasks that only sleep, and timed
//! regular-expression searches.
//!
//! Every kernel carries a contract that states the value it computes, so a
//! harness that times a kernel also knows which answer to expect from it.
//! Threads, the async runtime, files and the printing of rates are the
//! harness's business and are not found here.

pub mod encoding;
pub mod fan_in;
pub mod fan_out;
pub mod fib;
pub mod hashing;
pub mod matching;
pub mod pattern_bench;
pub mod pattern_bench_realistic;
pub mod sleep_tasks;

