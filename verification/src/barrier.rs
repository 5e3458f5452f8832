//! The opacity barrier: identity functions the optimizer must treat as
//! opaque, so that a timed call is neither folded to a constant nor
//! eliminated as unused.

use vstd::prelude::*;

verus! {

/// Relies on std::hint::black_box: an identity function whose argument and
/// result the optimizer treats as opaque.
#[verifier::external_body]
fn opaque_identity<T>(x: T) -> (r: T)
    ensures
        r == x,
{
    std::hint::black_box(x)
}

/// Hide a value handed to a measured call, so the optimizer cannot treat
/// the argument as known and precompute or hoist the call.
pub fn hide_value<T>(x: T) -> (r: T)
    ensures
        r == x,
{
    opaque_identity(x)
}

/// Hide the result of a measured call, so the optimizer cannot conclude the
/// result is unobserved and eliminate the call that produced it.
pub fn hide_result<T>(y: T) -> (r: T)
    ensures
        r == y,
{
    opaque_identity(y)
}

} // verus!
