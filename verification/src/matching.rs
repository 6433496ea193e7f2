//! Regular-expression matching with the `regex` crate, as far as the timed
//! runs need it: compile a pattern, find or count its matches in a text, and
//! time a number of searches.

use vstd::prelude::*;
use std::time::{Duration, Instant};
use regex::Regex;

verus! {

/// A compiled regular expression. Its inside is not visible to proofs; what
/// it finds in a text is `regex_spans`.
#[verifier::external_type_specification]
#[verifier::external_body]
pub struct ExRegex(Regex);

/// The reason why a pattern did not compile.
#[verifier::external_type_specification]
#[verifier::external_body]
pub struct ExRegexError(regex::Error);

/// A reading of the monotonic clock.
#[verifier::external_type_specification]
#[verifier::external_body]
pub struct ExInstant(Instant);

/// Whether `Regex::new` accepts `pattern`: it is well formed, and its compiled
/// form stays within the crate's default size limit.
pub uninterp spec fn pattern_compiles(pattern: Seq<char>) -> bool;

/// The successive non-overlapping matches of `pattern` in `text`, each as the
/// byte offsets of its start and its end, in the order in which a search from
/// the left finds them: what an expression that `Regex::new` made from
/// `pattern` finds in `text`.
pub uninterp spec fn pattern_spans(pattern: Seq<char>, text: Seq<char>) -> Seq<(usize, usize)>;

/// What the compiled expression `re` finds in `text`: the matches that
/// `Regex::find_iter` yields, each as the byte offsets of its start and end.
pub uninterp spec fn regex_spans(re: Regex, text: Seq<char>) -> Seq<(usize, usize)>;

/// `Regex::new`: compiles exactly the patterns that `pattern_compiles` admits,
/// and the compiled expression finds in every text the matches of the
/// pattern it was made from.
#[verifier::external_body]
pub(crate) fn compile(pattern: &str) -> (compiled: Result<Regex, regex::Error>)
    ensures
        compiled is Ok <==> pattern_compiles(pattern@),
        compiled matches Ok(re) ==> forall|text: Seq<char>| #[trigger]
            regex_spans(re, text) == pattern_spans(pattern@, text),
{
    Regex::new(pattern)
}

/// `Regex::find_iter`, run to its end and collected: every match of `re` in
/// `text` as the pair of `Match::start` and `Match::end`.
#[verifier::external_body]
pub(crate) fn find_all(re: &Regex, text: &str) -> (found: Vec<(usize, usize)>)
    ensures
        found@ == regex_spans(*re, text@),
{
    re.find_iter(text).map(|m| (m.start(), m.end())).collect()
}

/// `Regex::find_iter` followed by the iterator's `count`: the number of
/// matches of `re` in `text`.
#[verifier::external_body]
pub(crate) fn count_all(re: &Regex, text: &str) -> (count: usize)
    ensures
        count == regex_spans(*re, text@).len(),
{
    re.find_iter(text).count()
}

/// `Instant::now`. The reading depends on when it is taken; nothing is stated
/// of it.
pub assume_specification[ Instant::now ]() -> Instant;

/// `Instant::elapsed`: the time since the reading was taken. Nothing is stated
/// of its length.
pub assume_specification[ Instant::elapsed ](start: &Instant) -> Duration;

/// The outcome of timing one pattern on one text.
pub struct PatternRun {
    /// The number of matches of the pattern in the text.
    pub match_count: usize,
    /// The number of timed searches.
    pub iterations: usize,
    /// The time that the timed searches took together.
    pub elapsed: Duration,
}

/// What a timed run of `pattern` on `text` with `iterations` searches may
/// return: nothing exactly when the pattern does not compile, and otherwise a
/// report with the number of matches of the pattern in the text and the
/// number of searches asked for. The time taken is left open.
pub open spec fn is_run_of(
    pattern: Seq<char>,
    text: Seq<char>,
    iterations: usize,
    run: Option<PatternRun>,
) -> bool {
    &&& run is Some <==> pattern_compiles(pattern)
    &&& run matches Some(report) ==> {
        &&& report.match_count == pattern_spans(pattern, text).len()
        &&& report.iterations == iterations
    }
}

/// Match counts are stable: two runs of one pattern on one text, however many
/// searches each one times, both fail or both report the same count.
pub proof fn lemma_match_count_is_stable(
    pattern: Seq<char>,
    text: Seq<char>,
    first_iterations: usize,
    first: Option<PatternRun>,
    second_iterations: usize,
    second: Option<PatternRun>,
)
    requires
        is_run_of(pattern, text, first_iterations, first),
        is_run_of(pattern, text, second_iterations, second),
    ensures
        first is Some <==> second is Some,
        first is Some ==> first->Some_0.match_count == second->Some_0.match_count,
{
}

/// Searches `text` for all matches of `re`, `rounds` times over, and drops
/// what it found.
pub(crate) fn search_rounds(re: &Regex, text: &str, rounds: usize) {
    let mut round: usize = 0;
    while round < rounds
        invariant
            round <= rounds,
        decreases rounds - round,
    {
        let _ = find_all(re, text);
        round += 1;
    }
}

/// Times `iterations` searches of `text` for all matches of `re`.
pub(crate) fn time_rounds(re: &Regex, text: &str, iterations: usize) -> (elapsed: Duration) {
    let start = Instant::now();
    search_rounds(re, text, iterations);
    start.elapsed()
}

} // verus!
