//! A fixed-point animation sampling and blending core.
//!
//! Keyframe curves are bound to stable target identifiers; playback state
//! machines advance seek cursors through clips; an evaluator samples every
//! relevant curve and blends the results into per-target output fields.
//!
//! All quantities are integers:
//! - times are ticks of `TICKS_PER_SECOND` per second,
//! - playback speed and blend weights are fixed-point with `SPEED_SCALE`
//!   and `WEIGHT_SCALE` units standing for 1.0,
//! - animated values (translations, rotations, scales, morph weights) are
//!   plain `i64` samples in whatever unit the host chooses, bounded by
//!   `MAX_VALUE` in curve payloads and by `MAX_POSE` in target fields.

use vstd::prelude::*;

pub mod clip;
pub mod curve;
pub mod evaluate;
pub mod ids;
pub mod math;
pub mod playback;
pub mod player;

verus! {

/// Ticks per second: the resolution of all times handled by this crate.
pub const TICKS_PER_SECOND: i64 = 1000;

/// Largest keyframe timestamp (and clip duration) the engine accepts, in ticks.
pub const MAX_TIME: i64 = 0x10_0000;

/// Largest time advance accepted for a single tick, in ticks.
pub const MAX_DELTA: i64 = 0x10_0000;

/// Fixed-point scale of playback speed: `SPEED_SCALE` means a speed of 1.0.
pub const SPEED_SCALE: i64 = 1000;

/// Largest playback speed magnitude, in `SPEED_SCALE` units.
pub const MAX_SPEED: i64 = 0x10_0000;

/// Fixed-point scale of blend weights: `WEIGHT_SCALE` means a weight of 1.0.
pub const WEIGHT_SCALE: i64 = 1000;

/// Largest magnitude of a keyframe payload sample.
pub const MAX_VALUE: i64 = 0x10_0000;

/// Largest magnitude of a target output field; interpolation results are
/// clamped to this range.
pub const MAX_POSE: i64 = 0x100_0000_0000;

/// Cap on accumulated elapsed time: time advance saturates here.
pub const MAX_ELAPSED: i64 = 0x1000_0000_0000_0000;

/// Range limit of a seek cursor: a cursor left out of range by a finished
/// pass is clamped to this magnitude before any further advance.
pub const SEEK_LIMIT: i64 = 0x100_0000_0000;

/// Truncating division (rounds toward zero, as Rust's `/` does), for a
/// positive divisor.
pub open spec fn div_trunc(x: int, d: int) -> int
    recommends
        d > 0,
{
    if x >= 0 {
        x / d
    } else {
        -((-x) / d)
    }
}

/// Truncating division of a possibly negative dividend by a positive divisor.
pub fn div_trunc_i64(x: i64, d: i64) -> (r: i64)
    requires
        d > 0,
        x > i64::MIN,
    ensures
        r == div_trunc(x as int, d as int),
{
    if x >= 0 {
        x / d
    } else {
        -((-x) / d)
    }
}

} // verus!
