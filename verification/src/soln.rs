//! The interface between user solutions and the benchmark harness.

use vstd::prelude::*;

verus! {

/// This is the interface between user solutions and our benchmarks.
/// Solutions must implement this trait. Nothing is assumed of either
/// method: the harness checks a solution for determinism at run time before
/// trusting any timing.
pub trait AOCSolution {
    fn aoc_part1(raw_input: &[u8]) -> String;

    fn aoc_part2(raw_input: &[u8]) -> String;
}

} // verus!
