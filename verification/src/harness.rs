//! The whole calibration-and-measurement run: determinism guard, calibrator,
//! batched sampler and reporter, in that order.

use vstd::prelude::*;
use crate::calibrate::derive_batch_size;
use crate::clock::MAX_GAP_NANOS;
use crate::guard::{establish_baseline_and_warm_up, HarnessError};
use crate::input::StableInput;
use crate::report::{report, report_text, sample_sum, sorted_asc, Stats};
use crate::sampler::{sample, SAMPLE_COUNT};
use crate::soln::AOCSolution;

verus! {

/// Benchmark a solution on a stabilized input. The determinism guard
/// establishes the baseline answer and the warmup count within the budget;
/// the calibrator turns the count into a batch size; the sampler fills the
/// 100-sample distribution; the reporter renders it. On success the text is
/// the full five-line report of the baseline answer and the median, average,
/// minimum and maximum over some ascending permutation of 100 samples; the
/// only failure is the guard's non-determinism error, which carries an
/// answer that really differs from the baseline.
pub fn run_benchmark<S: AOCSolution>(input: &StableInput, budget_nanos: u128) -> (r: Result<
    String,
    HarnessError,
>)
    ensures
        (match r {
            Ok(text) => exists|answer: Seq<char>, perm: Seq<u128>|
                {
                    &&& sorted_asc(perm)
                    &&& perm.len() == SAMPLE_COUNT
                    &&& text@ == #[trigger] report_text(
                        answer,
                        (Stats {
                            median: perm[50],
                            average: (sample_sum(perm) / 100) as u128,
                            min: perm[0],
                            max: perm[99],
                        }),
                    )
                },
            Err(e) => (match e {
                HarnessError::NonDeterministic { baseline, answer } => baseline@ != answer@,
            }),
        }),
{
    match establish_baseline_and_warm_up::<S>(input, budget_nanos) {
        Err(e) => Err(e),
        Ok(warmed) => {
            let (baseline, warmup_count) = warmed;
            let batch_size = derive_batch_size(warmup_count);
            let samples = sample::<S>(input, batch_size);
            let text = report(&baseline, &samples);
            proof {
                let perm = choose|perm: Seq<u128>|
                    {
                        &&& sorted_asc(perm)
                        &&& perm.to_multiset() == samples@.to_multiset()
                        &&& perm.len() == samples@.len()
                        &&& text@ == #[trigger] report_text(
                            baseline@,
                            (Stats {
                                median: perm[50],
                                average: (sample_sum(perm) / 100) as u128,
                                min: perm[0],
                                max: perm[99],
                            }),
                        )
                    };
                assert(sorted_asc(perm) && perm.len() == SAMPLE_COUNT && text@ == report_text(
                    baseline@,
                    (Stats {
                        median: perm[50],
                        average: (sample_sum(perm) / 100) as u128,
                        min: perm[0],
                        max: perm[99],
                    }),
                ));
            }
            Ok(text)
        },
    }
}

} // verus!
