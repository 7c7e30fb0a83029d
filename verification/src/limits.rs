//! How far the pitch may tilt and the zoom may open.
//!
//! The camera adds and subtracts in single precision; the sums and
//! differences come here as bit patterns, and what the camera stores is
//! decided here.

use vstd::prelude::*;
use vstd::arithmetic::power2::{lemma2_to64, lemma_pow2_adds, pow2};
use crate::binary32::{
    between, clamp, clamped, finite, is_zero, lemma_within_finite_bounds, nan, numerator, unit,
    zero,
};

verus! {

/// The pattern of `-89.0`, the lowest constrained pitch in degrees.
pub const PITCH_MIN: u32 = 0xC2B2_0000;

/// The pattern of `89.0`, the highest constrained pitch in degrees.
pub const PITCH_MAX: u32 = 0x42B2_0000;

/// The pattern of `1.0`, the narrowest zoom in degrees.
pub const ZOOM_MIN: u32 = 0x3F80_0000;

/// The pattern of `45.0`, the widest zoom in degrees.
pub const ZOOM_MAX: u32 = 0x4234_0000;

/// The pitch that a look leaves behind. `sum` is the old pitch plus the
/// scaled vertical offset. A constrained look keeps the pitch between
/// `-89.0` and `89.0`; an unconstrained look stores the sum as it is.
pub open spec fn pitch_after(sum: u32, constrain_pitch: bool) -> u32 {
    if constrain_pitch {
        clamped(sum, PITCH_MIN, PITCH_MAX)
    } else {
        sum
    }
}

/// The zoom that a scroll leaves behind. `difference` is the old zoom minus
/// the offset. An offset of zero changes nothing; any other offset stores
/// the difference, kept between `1.0` and `45.0`.
pub open spec fn zoom_after(zoom: u32, y_offset: u32, difference: u32) -> u32 {
    if zero(y_offset) {
        zoom
    } else {
        clamped(difference, ZOOM_MIN, ZOOM_MAX)
    }
}

/// The four limits are the patterns of the whole numbers -89, 89, 1 and 45.
pub proof fn lemma_limits_are_whole_degrees()
    ensures
        finite(PITCH_MIN) && numerator(PITCH_MIN) == -89 * unit(),
        finite(PITCH_MAX) && numerator(PITCH_MAX) == 89 * unit(),
        finite(ZOOM_MIN) && numerator(ZOOM_MIN) == 1 * unit(),
        finite(ZOOM_MAX) && numerator(ZOOM_MAX) == 45 * unit(),
{
    lemma2_to64();
    lemma_pow2_adds(17, 132);
    lemma_pow2_adds(18, 131);
    lemma_pow2_adds(23, 126);
    let p132 = pow2(132) as int;
    let p131 = pow2(131) as int;
    let p126 = pow2(126) as int;
    assert(0xB2_0000 * p132 == 89 * (0x2_0000 * p132)) by (nonlinear_arith);
    assert(0xB4_0000 * p131 == 45 * (0x4_0000 * p131)) by (nonlinear_arith);
    assert(0x80_0000 * p126 == 1 * (0x80_0000 * p126)) by (nonlinear_arith);
}

/// Decides the pitch to store after a look, from the sum of the old pitch
/// and the scaled vertical offset.
///
/// A constrained look never leaves the pitch outside -89 to 89 degrees
/// unless the sum is a NaN.
pub fn pitch_after_look(sum: u32, constrain_pitch: bool) -> (pitch: u32)
    ensures
        pitch == pitch_after(sum, constrain_pitch),
        constrain_pitch && !nan(sum) ==> between(pitch, -89, 89),
{
    if constrain_pitch {
        let pitch = clamp(sum, PITCH_MIN, PITCH_MAX);
        proof {
            if !nan(sum) {
                lemma_limits_are_whole_degrees();
                lemma_within_finite_bounds(pitch, PITCH_MIN, PITCH_MAX);
            }
        }
        pitch
    } else {
        sum
    }
}

/// Decides the zoom to store after a scroll, from the old zoom, the offset,
/// and the difference of the two.
///
/// A zoom between 1 and 45 degrees stays there, whatever the offset, unless
/// the difference that is stored is a NaN.
pub fn zoom_after_scroll(zoom: u32, y_offset: u32, difference: u32) -> (next: u32)
    ensures
        next == zoom_after(zoom, y_offset, difference),
        between(zoom, 1, 45) && (zero(y_offset) || !nan(difference)) ==> between(next, 1, 45),
{
    if is_zero(y_offset) {
        zoom
    } else {
        let next = clamp(difference, ZOOM_MIN, ZOOM_MAX);
        proof {
            if !nan(difference) {
                lemma_limits_are_whole_degrees();
                lemma_within_finite_bounds(next, ZOOM_MIN, ZOOM_MAX);
            }
        }
        next
    }
}

} // verus!
