//! The timed run of one pattern on a small text: a fixed number of warm-up
//! searches, a count of the matches, then the timed searches.

use vstd::prelude::*;
use crate::matching::{
    compile, count_all, is_run_of, search_rounds, time_rounds, PatternRun,
};

verus! {

/// The number of searches made before the matches are counted and the clock
/// is started.
pub const WARMUP_ROUNDS: usize = 100;

/// Compiles `pattern`, warms up, counts its matches in `text` and times
/// `iterations` searches that each collect all matches. A pattern that does
/// not compile is not run, and nothing is returned for it.
pub fn benchmark_pattern(pattern: &str, text: &str, iterations: usize) -> (run: Option<PatternRun>)
    ensures
        is_run_of(pattern@, text@, iterations, run),
{
    let re = match compile(pattern) {
        Ok(re) => re,
        Err(_) => {
            return None;
        },
    };
    search_rounds(&re, text, WARMUP_ROUNDS);
    let match_count = count_all(&re, text);
    let elapsed = time_rounds(&re, text, iterations);
    Some(PatternRun { match_count, iterations, elapsed })
}

} // verus!
