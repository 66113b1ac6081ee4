//! Saturating fixed-point arithmetic over `i64` micro-unit quantities.
//!
//! Positions and sizes are micro-units, rates are micro-units per second,
//! durations are microseconds. A rate integrated over a duration divides by
//! `MICROS_PER_SECOND` and truncates toward zero, as the ratio of two
//! non-negative magnitudes does. Every result saturates at the `i64` range
//! instead of wrapping.

use vstd::prelude::*;
use crate::time::MICROS_PER_SECOND;

verus! {

/// The mathematical value `v` clamped to the representable `i64` range.
pub open spec fn i64_clamp(v: int) -> int {
    if v > i64::MAX as int {
        i64::MAX as int
    } else if v < i64::MIN as int {
        i64::MIN as int
    } else {
        v
    }
}

/// Saturating sum of two `i64` values.
pub open spec fn sat_add_spec(a: int, b: int) -> int {
    i64_clamp(a + b)
}

/// `rate` micro-units per second integrated over `elapsed_us` microseconds,
/// truncated toward zero and clamped to the `i64` range.
pub open spec fn scale_rate_spec(rate: int, elapsed_us: int) -> int {
    if rate >= 0 {
        i64_clamp((rate * elapsed_us) / (MICROS_PER_SECOND as int))
    } else {
        i64_clamp(-(((-rate) * elapsed_us) / (MICROS_PER_SECOND as int)))
    }
}

/// Saturating addition on `i64`.
pub fn sat_add(a: i64, b: i64) -> (r: i64)
    ensures
        r as int == sat_add_spec(a as int, b as int),
{
    let s: i128 = a as i128 + b as i128;
    if s > i64::MAX as i128 {
        i64::MAX
    } else if s < i64::MIN as i128 {
        i64::MIN
    } else {
        s as i64
    }
}

/// Integrates a signed rate over a duration: `rate * elapsed_us` divided by
/// `MICROS_PER_SECOND`, truncated toward zero, saturating at the `i64` range.
pub fn scale_rate(rate: i64, elapsed_us: u64) -> (r: i64)
    ensures
        r as int == scale_rate_spec(rate as int, elapsed_us as int),
{
    let ri: i128 = rate as i128;
    let mag: u128 = if ri >= 0 {
        ri as u128
    } else {
        (-ri) as u128
    };
    assert(mag <= 0x8000_0000_0000_0000u128);
    assert(mag * (elapsed_us as u128) <= u128::MAX as u128) by (nonlinear_arith)
        requires
            mag <= 0x8000_0000_0000_0000u128,
            elapsed_us <= u64::MAX,
    ;
    let product: u128 = mag * (elapsed_us as u128);
    let q: u128 = product / (MICROS_PER_SECOND as u128);
    if rate >= 0 {
        if q > i64::MAX as u128 {
            i64::MAX
        } else {
            q as i64
        }
    } else {
        if q >= 0x8000_0000_0000_0000u128 {
            i64::MIN
        } else {
            -(q as i64)
        }
    }
}

} // verus!
