//! A self-calibrating micro-benchmark harness for puzzle solutions, plus one
//! such solution: given a deterministic computation over a byte buffer, the
//! harness checks that it is deterministic, calibrates a batch size against a
//! fixed time budget, samples per-call latency in fixed-size batches, and
//! renders a compact text report.

pub mod barrier;
pub mod calibrate;
pub mod clock;
pub mod code;
pub mod guard;
pub mod harness;
pub mod input;
pub mod report;
pub mod sampler;
pub mod soln;

pub use calibrate::derive_batch_size;
pub use soln::AOCSolution;
