use bench_workloads::pattern_bench;
use bench_workloads::pattern_bench_realistic;

const SAMPLE: &str = "Contact alice@example.com or bob.smith@mail.example.org. Visit https://example.com/page?x=1 and http://test.org now. Call (555) 123-4567 or 555-987-6543. Dates: 2024-01-15, 2023-12-31. IPs 192.168.1.1 and 10.0.0.255. Colors #ff00aa #ABCDEF #12345g. Versions v1.2.3 and 10.20.30. ids abc123 x9 hello42 world.";

const SUITE: [(&str, usize); 10] = [
    (r"[a-zA-Z0-9._%+-]+@[a-zA-Z0-9.-]+\.[a-zA-Z]{2,}", 2),
    (r"https?://[^\s]+", 2),
    (r"\(\d{3}\)\s?\d{3}-\d{4}|\d{3}-\d{3}-\d{4}", 2),
    (r"\d+", 32),
    (r"\b[a-z]{4,}\b", 11),
    (r"\d{4}-\d{2}-\d{2}", 2),
    (r"\b\d{1,3}\.\d{1,3}\.\d{1,3}\.\d{1,3}\b", 2),
    (r"#[0-9a-fA-F]{6}", 2),
    (r"v?\d+\.\d+\.\d+", 4),
    (r"[a-z]+\d+", 5),
];

#[test]
fn counts_the_matches_of_a_pattern() {
    let run = pattern_bench::benchmark_pattern(r"\d+", "a1b22c333", 3).unwrap();
    assert_eq!(run.match_count, 3);
    assert_eq!(run.iterations, 3);
}

#[test]
fn counts_the_matches_of_a_pattern_realistic() {
    let run = pattern_bench_realistic::benchmark_pattern(r"\d+", "a1b22c333", 5).unwrap();
    assert_eq!(run.match_count, 3);
    assert_eq!(run.iterations, 5);
}

#[test]
fn a_pattern_without_matches_counts_zero() {
    let run = pattern_bench::benchmark_pattern(r"\d+", "no digits here", 2).unwrap();
    assert_eq!(run.match_count, 0);
    let run = pattern_bench_realistic::benchmark_pattern(r"\d+", "", 2).unwrap();
    assert_eq!(run.match_count, 0);
}

#[test]
fn a_pattern_that_does_not_compile_is_not_run() {
    assert!(pattern_bench::benchmark_pattern(r"foo(bar", SAMPLE, 10).is_none());
    assert!(pattern_bench_realistic::benchmark_pattern(r"foo(bar", SAMPLE, 10).is_none());
    assert!(pattern_bench::benchmark_pattern(r"[a-", SAMPLE, 0).is_none());
    assert!(pattern_bench::benchmark_pattern(r"*", "", 1).is_none());
}

#[test]
fn a_pattern_that_is_too_big_is_not_run() {
    assert!(pattern_bench::benchmark_pattern(r"\w{1000}", SAMPLE, 1).is_none());
    assert!(pattern_bench::benchmark_pattern(r"(?-u:\w){1000}", SAMPLE, 1).is_some());
}

#[test]
fn runs_with_no_timed_searches() {
    let run = pattern_bench::benchmark_pattern(r"[a-z]+", "abc def", 0).unwrap();
    assert_eq!(run.match_count, 2);
    assert_eq!(run.iterations, 0);
}

#[test]
fn suite_counts_on_the_sample() {
    for (pattern, count) in SUITE.iter() {
        let run = pattern_bench::benchmark_pattern(pattern, SAMPLE, 2).unwrap();
        assert_eq!(run.match_count, *count, "pattern {}", pattern);
    }
}

#[test]
fn suite_counts_on_the_sample_realistic() {
    for (pattern, count) in SUITE.iter() {
        let run = pattern_bench_realistic::benchmark_pattern(pattern, SAMPLE, 2).unwrap();
        assert_eq!(run.match_count, *count, "pattern {}", pattern);
    }
}

#[test]
fn match_counts_are_stable_across_runs() {
    for (pattern, _) in SUITE.iter() {
        let first = pattern_bench::benchmark_pattern(pattern, SAMPLE, 1).unwrap();
        let second = pattern_bench::benchmark_pattern(pattern, SAMPLE, 4).unwrap();
        let third = pattern_bench_realistic::benchmark_pattern(pattern, SAMPLE, 2).unwrap();
        assert_eq!(first.match_count, second.match_count);
        assert_eq!(first.match_count, third.match_count);
    }
}

#[test]
fn matches_do_not_overlap() {
    let run = pattern_bench::benchmark_pattern(r"aa", "aaaaa", 1).unwrap();
    assert_eq!(run.match_count, 2);
}

#[test]
fn counts_in_text_beyond_ascii() {
    let run = pattern_bench_realistic::benchmark_pattern(r"\p{Greek}+", "Greek: αβγδ and ω", 1).unwrap();
    assert_eq!(run.match_count, 2);
}

#[test]
fn counts_agree_with_a_direct_search() {
    for (pattern, _) in SUITE.iter() {
        let direct = regex::Regex::new(pattern).unwrap().find_iter(SAMPLE).count();
        let run = pattern_bench::benchmark_pattern(pattern, SAMPLE, 1).unwrap();
        assert_eq!(run.match_count, direct);
        let run = pattern_bench_realistic::benchmark_pattern(pattern, SAMPLE, 1).unwrap();
        assert_eq!(run.match_count, direct);
    }
}

#[test]
fn compiles_exactly_what_the_regex_crate_compiles() {
    for pattern in [r"\d+", r"foo(bar", r"a{2,1}", r"(?i)abc", r"\p{Greek}", r"\p{NoSuch}", r""] {
        let direct = regex::Regex::new(pattern).is_ok();
        assert_eq!(pattern_bench::benchmark_pattern(pattern, "abc", 0).is_some(), direct);
        assert_eq!(pattern_bench_realistic::benchmark_pattern(pattern, "abc", 0).is_some(), direct);
    }
}
