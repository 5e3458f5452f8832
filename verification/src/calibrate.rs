//! The calibrator: turns the warmup call count into the batch size used by
//! the measurement phase.

use vstd::prelude::*;

verus! {

/// The batch size derived from a warmup call count: `max(1, count / 100)`.
/// The measurement phase always runs exactly 100 batches, so dividing the
/// warmup throughput by 100 keeps the measurement wall time near the warmup
/// budget while guaranteeing at least one call per batch.
pub open spec fn spec_batch_size(warmup_count: u64) -> u64 {
    if warmup_count / 100 == 0 {
        1
    } else {
        warmup_count / 100
    }
}

/// Derive the per-batch call count for the measurement phase from the number
/// of calls that completed inside the warmup budget. Never returns 0, even
/// for a warmup count of 0.
pub fn derive_batch_size(warmup_count: u64) -> (batch: u64)
    ensures
        batch == spec_batch_size(warmup_count),
        batch >= 1,
{
    let hundredth: u64 = warmup_count / 100;
    if hundredth == 0 {
        1
    } else {
        hundredth
    }
}

} // verus!
