//! The representation of frame durations.
//!
//! A duration in seconds is measured by the host as an IEEE-754
//! single-precision value. The library carries such a value as its raw bit
//! pattern in a `u32` and never performs floating-point arithmetic on it.
//! For non-negative finite values the unsigned order of the bit patterns
//! agrees with the numeric order, so comparing, bucketing and validating
//! durations can be done directly on the patterns. The host converts with
//! `f32::to_bits` / `f32::from_bits` at the boundary.

use vstd::prelude::*;

verus! {

/// Bit pattern of positive infinity. Every pattern strictly below it stands
/// for a non-negative finite value; every pattern at or above it is an
/// infinity, a NaN, or carries the sign bit.
pub const SAMPLE_LIMIT: u32 = 0x7f80_0000;

/// A pattern stands for a well-formed duration (non-negative and finite)
/// exactly when it lies below [`SAMPLE_LIMIT`].
pub open spec fn sample_ok(bits: u32) -> bool {
    bits < SAMPLE_LIMIT
}

/// The stored form of a pushed sample. The policy for malformed samples
/// (negative, infinite or NaN durations) is to clamp them to zero rather
/// than let them corrupt bar-height calculations.
pub open spec fn spec_clamp_sample(bits: u32) -> u32 {
    if sample_ok(bits) {
        bits
    } else {
        0
    }
}

/// Clamps a malformed sample to zero; well-formed samples pass unchanged.
pub fn clamp_sample(bits: u32) -> (r: u32)
    ensures
        r == spec_clamp_sample(bits),
        sample_ok(r),
{
    if bits < SAMPLE_LIMIT {
        bits
    } else {
        0
    }
}

} // verus!
