//! The timed run of one pattern on a large text: a single warm-up search,
//! whose matches are counted, then the timed searches.

use vstd::prelude::*;
use crate::matching::{compile, find_all, is_run_of, time_rounds, PatternRun};

verus! {

/// Compiles `pattern`, collects its matches in `text` once and takes their
/// number as the count, then times `iterations` searches that each collect
/// all matches. A pattern that does not compile is not run, and nothing is
/// returned for it.
pub fn benchmark_pattern(pattern: &str, text: &str, iterations: usize) -> (run: Option<PatternRun>)
    ensures
        is_run_of(pattern@, text@, iterations, run),
{
    let re = match compile(pattern) {
        Ok(re) => re,
        Err(_) => {
            return None;
        },
    };
    let matches = find_all(&re, text);
    let match_count = matches.len();
    let elapsed = time_rounds(&re, text, iterations);
    Some(PatternRun { match_count, iterations, elapsed })
}

} // verus!
