use ferris_elf::calibrate::derive_batch_size;
use ferris_elf::guard::{answers_match, establish_baseline_and_warm_up, HarnessError};
use ferris_elf::harness::run_benchmark;
use ferris_elf::input::stabilize;
use ferris_elf::sampler::sample;
use ferris_elf::AOCSolution;

/// A deterministic solution: the same answer for every call.
struct ConstSolution;

impl AOCSolution for ConstSolution {
    fn aoc_part1(_raw_input: &[u8]) -> String {
        "42".to_string()
    }

    fn aoc_part2(_raw_input: &[u8]) -> String {
        "42".to_string()
    }
}

/// A non-deterministic solution: the answer changes with the wall clock.
struct ClockSolution;

impl AOCSolution for ClockSolution {
    fn aoc_part1(_raw_input: &[u8]) -> String {
        let since_epoch = std::time::SystemTime::now()
            .duration_since(std::time::UNIX_EPOCH)
            .unwrap();
        format!("{}", since_epoch.as_nanos())
    }

    fn aoc_part2(_raw_input: &[u8]) -> String {
        Self::aoc_part1(_raw_input)
    }
}

/// A deterministic solution whose single call outlasts a small budget.
struct SlowSolution;

impl AOCSolution for SlowSolution {
    fn aoc_part1(raw_input: &[u8]) -> String {
        let start = std::time::Instant::now();
        while start.elapsed() < std::time::Duration::from_millis(30) {}
        format!("{}", raw_input.len())
    }

    fn aoc_part2(raw_input: &[u8]) -> String {
        Self::aoc_part1(raw_input)
    }
}

#[test]
fn derive_batch_size_is_never_zero() {
    assert_eq!(derive_batch_size(0), 1);
    assert_eq!(derive_batch_size(1), 1);
    assert_eq!(derive_batch_size(99), 1);
    assert_eq!(derive_batch_size(100), 1);
    assert_eq!(derive_batch_size(199), 1);
    assert_eq!(derive_batch_size(200), 2);
    assert_eq!(derive_batch_size(10_000), 100);
    assert_eq!(derive_batch_size(u64::MAX), u64::MAX / 100);
}

#[test]
fn answers_match_compares_text() {
    assert!(answers_match(&"42".to_string(), &"42".to_string()));
    assert!(!answers_match(&"42".to_string(), &"43".to_string()));
}

#[test]
fn guard_accepts_a_deterministic_solution() {
    let input = stabilize(b"abc".to_vec());
    let warmed = establish_baseline_and_warm_up::<ConstSolution>(&input, 100_000_000);
    let (baseline, count) = warmed.expect("deterministic solution passes the guard");
    assert_eq!(baseline, "42");
    assert!(count >= 1);
}

#[test]
fn guard_counts_the_baseline_call_under_a_zero_budget() {
    let input = stabilize(b"abc".to_vec());
    let warmed = establish_baseline_and_warm_up::<ConstSolution>(&input, 0);
    let (_, count) = warmed.expect("guard still returns");
    assert_eq!(count, 1);
}

#[test]
fn guard_rejects_a_non_deterministic_solution() {
    let input = stabilize(b"abc".to_vec());
    let warmed = establish_baseline_and_warm_up::<ClockSolution>(&input, 2_000_000_000);
    let err = warmed.expect_err("clock-driven answers differ during warmup");
    assert_eq!(err.message(), "non-deterministic solution");
    let HarnessError::NonDeterministic { baseline, answer } = err;
    assert_ne!(baseline, answer);
}

#[test]
fn sampler_fills_exactly_one_hundred_samples() {
    let input = stabilize(b"abc".to_vec());
    let samples = sample::<ConstSolution>(&input, 3);
    assert_eq!(samples.len(), 100);
}

#[test]
fn benchmark_of_a_constant_solution_reports_consistent_lines() {
    let input = stabilize(b"any input".to_vec());
    let text = run_benchmark::<ConstSolution>(&input, 1_000_000_000)
        .expect("deterministic solution completes");
    let lines: Vec<&str> = text.lines().collect();
    assert_eq!(lines.len(), 5);
    assert_eq!(lines[0], "FERRIS_ELF_ANSWER 42");
    let median: u128 = lines[1].strip_prefix("FERRIS_ELF_MEDIAN ").unwrap().parse().unwrap();
    let average: u128 = lines[2].strip_prefix("FERRIS_ELF_AVERAGE ").unwrap().parse().unwrap();
    let min: u128 = lines[3].strip_prefix("FERRIS_ELF_MIN ").unwrap().parse().unwrap();
    let max: u128 = lines[4].strip_prefix("FERRIS_ELF_MAX ").unwrap().parse().unwrap();
    assert!(min <= median && median <= max);
    assert!(min <= average && average <= max);
}

#[test]
fn benchmark_of_a_non_deterministic_solution_fails_in_warmup() {
    let input = stabilize(b"any input".to_vec());
    let r = run_benchmark::<ClockSolution>(&input, 2_000_000_000);
    assert!(r.is_err());
}

#[test]
fn slow_solution_still_completes_with_one_warmup_call() {
    let input = stabilize(b"xyz".to_vec());
    let warmed = establish_baseline_and_warm_up::<SlowSolution>(&input, 10_000_000);
    let (baseline, count) = warmed.expect("slow but deterministic");
    assert_eq!(baseline, "3");
    assert_eq!(count, 1);
    assert_eq!(derive_batch_size(count), 1);
    let text = run_benchmark::<SlowSolution>(&input, 10_000_000)
        .expect("the harness completes instead of hanging in calibration");
    let lines: Vec<&str> = text.lines().collect();
    assert_eq!(lines.len(), 5);
    assert_eq!(lines[0], "FERRIS_ELF_ANSWER 3");
}
