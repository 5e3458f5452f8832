//! The determinism guard: establish a baseline answer, then re-run the
//! solution for a fixed wall-clock budget, failing on the first answer that
//! differs from the baseline.

use vstd::prelude::*;
use crate::barrier::{hide_result, hide_value};
use crate::clock::{clock_now, nanos_since};
use crate::input::StableInput;
use crate::soln::AOCSolution;

verus! {

/// The one failure the harness itself reports: the solution returned two
/// different answers for the same input; both are carried as the witness.
/// It is fatal and never retried — a computation that is not a pure
/// function of its input cannot be timed.
#[derive(Debug)]
pub enum HarnessError {
    NonDeterministic { baseline: String, answer: String },
}

impl HarnessError {
    /// A line describing the failure.
    pub fn message(&self) -> (m: &'static str)
        ensures
            m@ == "non-deterministic solution"@,
    {
        match self {
            HarnessError::NonDeterministic { .. } => "non-deterministic solution",
        }
    }
}

/// Whether a fresh answer reproduces the baseline: true exactly when the
/// two are the same text. The guard fails only on answers this refuses, so
/// a solution whose answers all equal the baseline is never reported.
pub fn answers_match(answer: &String, baseline: &String) -> (r: bool)
    ensures
        r == (answer@ == baseline@),
{
    answer.eq(baseline)
}

/// Run the solution once for a baseline answer, then keep re-running it
/// through the opacity barrier until the budget has elapsed since the run
/// began, comparing every answer to the baseline with `answers_match`.
/// Returns the baseline and the count of completed calls — at least the
/// baseline call, even when that call alone exceeds the budget — or the
/// non-determinism error as soon as an answer differs. The error always
/// carries an answer that really differs from the baseline, so the guard
/// never fails on a solution whose answers all reproduce the baseline. The
/// count saturates at u64::MAX rather than wrap.
#[verifier::loop_isolation(false)]
pub fn establish_baseline_and_warm_up<S: AOCSolution>(
    input: &StableInput,
    budget_nanos: u128,
) -> (r: Result<(String, u64), HarnessError>)
    ensures
        (match r {
            Ok(out) => out.1 >= 1,
            Err(e) => (match e {
                HarnessError::NonDeterministic { baseline, answer } => baseline@ != answer@,
            }),
        }),
{
    let start = clock_now();
    let baseline = hide_result(S::aoc_part1(hide_value(input.as_bytes())));
    let mut count: u64 = 1;
    loop
        invariant
            count >= 1,
        decreases u64::MAX - count,
    {
        let now = clock_now();
        if nanos_since(&now, &start) >= budget_nanos {
            break;
        }
        let answer = hide_result(S::aoc_part1(hide_value(input.as_bytes())));
        if !answers_match(&answer, &baseline) {
            return Err(HarnessError::NonDeterministic { baseline, answer });
        }
        if count == u64::MAX {
            break;
        }
        count = count + 1;
    }
    Ok((baseline, count))
}

} // verus!
