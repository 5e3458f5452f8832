//! Reading the monotonic clock, behind trusted declarations: an instant is
//! opaque, and the gap between two instants is a count of nanoseconds.

use vstd::prelude::*;

verus! {

/// The most nanoseconds a std::time::Duration can hold: u64::MAX seconds
/// plus 999_999_999 nanoseconds.
pub const MAX_GAP_NANOS: u128 = 18_446_744_073_709_551_615_999_999_999;

#[verifier::external_type_specification]
#[verifier::external_body]
pub struct ExInstant(std::time::Instant);

/// Relies on std::time::Instant::now: an opaque reading of the monotonic
/// clock. Nothing is assumed of its value.
#[verifier::external_body]
pub fn clock_now() -> std::time::Instant {
    std::time::Instant::now()
}

/// Relies on Instant::saturating_duration_since: the span from `earlier` to
/// `later`, zero when `earlier` is not the earlier of the two. The span
/// itself is opaque; nothing is assumed of it.
#[verifier::external_body]
fn span_between(later: &std::time::Instant, earlier: &std::time::Instant) -> std::time::Duration {
    later.saturating_duration_since(*earlier)
}

/// Relies on Duration::as_nanos: the whole duration as a nanosecond count.
/// A duration counts at most u64::MAX whole seconds plus a fraction below
/// one second, so the count is at most `MAX_GAP_NANOS`; nothing else is
/// assumed of it.
#[verifier::external_body]
fn span_nanos(d: &std::time::Duration) -> (n: u128)
    ensures
        n <= MAX_GAP_NANOS,
{
    d.as_nanos()
}

/// The nanoseconds from `earlier` to `later`, zero when `earlier` is not
/// the earlier of the two.
pub fn nanos_since(later: &std::time::Instant, earlier: &std::time::Instant) -> (n: u128)
    ensures
        n <= MAX_GAP_NANOS,
{
    let span = span_between(later, earlier);
    span_nanos(&span)
}

} // verus!
