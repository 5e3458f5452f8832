//! The batched sampler: run the solution in 100 fixed-size batches, timing
//! each batch once and dividing by the batch size for one per-call latency
//! estimate per batch.

use vstd::prelude::*;
use crate::barrier::{hide_result, hide_value};
use crate::clock::{clock_now, nanos_since, MAX_GAP_NANOS};
use crate::input::StableInput;
use crate::soln::AOCSolution;

verus! {

/// How many latency samples a measurement run produces.
pub const SAMPLE_COUNT: usize = 100;

/// Execute the solution in `SAMPLE_COUNT` batches of `batch_size` calls
/// back to back, every argument and result passed through the opacity
/// barrier. The clock is read once per batch boundary; the start anchor
/// advances by each batch's raw elapsed time, so consecutive batches are
/// contiguous and no time is counted twice or dropped between them. Each
/// sample is the batch's elapsed nanoseconds divided by the batch size.
#[verifier::loop_isolation(false)]
pub fn sample<S: AOCSolution>(input: &StableInput, batch_size: u64) -> (samples: Vec<u128>)
    requires
        batch_size >= 1,
    ensures
        samples@.len() == SAMPLE_COUNT,
        forall|i: int| 0 <= i < samples@.len() ==> #[trigger] samples@[i] <= MAX_GAP_NANOS,
        exists|raw: Seq<u128>|
            raw.len() == SAMPLE_COUNT && (forall|i: int|
                0 <= i < raw.len() ==> samples@[i] == #[trigger] raw[i] / (batch_size as u128)),
{
    let start = clock_now();
    let mut anchor: u128 = 0;
    let mut samples: Vec<u128> = Vec::new();
    let ghost mut raw = Seq::<u128>::empty();
    let mut i: usize = 0;
    while i < SAMPLE_COUNT
        invariant
            i <= SAMPLE_COUNT,
            samples@.len() == i,
            raw.len() == i,
            anchor <= MAX_GAP_NANOS,
            forall|q: int| 0 <= q < samples@.len() ==> #[trigger] samples@[q] <= MAX_GAP_NANOS,
            forall|q: int|
                0 <= q < raw.len() ==> samples@[q] == #[trigger] raw[q] / (batch_size as u128),
        decreases SAMPLE_COUNT - i,
    {
        let mut j: u64 = 0;
        while j < batch_size
            invariant
                j <= batch_size,
            decreases batch_size - j,
        {
            let _answer = hide_result(S::aoc_part1(hide_value(input.as_bytes())));
            j += 1;
        }
        let now = clock_now();
        let since_start = nanos_since(&now, &start);
        let batch_elapsed: u128 = if since_start >= anchor {
            since_start - anchor
        } else {
            0
        };
        anchor = anchor + batch_elapsed;
        samples.push(batch_elapsed / (batch_size as u128));
        proof {
            raw = raw.push(batch_elapsed);
        }
        i += 1;
    }
    samples
}

} // verus!
