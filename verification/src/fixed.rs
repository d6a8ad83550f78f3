//! Fixed-point scalars for field values.
//!
//! Every cell value is an integer multiple of `1 / SCALE`: the value `SCALE`
//! stands for 1.0.  Densities live in `[0, SCALE]`; velocity components live
//! in `[-SCALE, SCALE]`.  Out-of-range control inputs are clamped here, at
//! the control surface, before they ever reach a kernel.

use vstd::prelude::*;

verus! {

/// Fixed-point scale: this value stands for 1.0.
pub const SCALE: u32 = 1_000_000;

/// `SCALE` as a signed value, for velocity components.
pub const SCALE_I: i32 = 1_000_000;

/// `v` clamped into `[lo, hi]`.
pub open spec fn clamped(v: int, lo: int, hi: int) -> int {
    if v < lo {
        lo
    } else if v > hi {
        hi
    } else {
        v
    }
}

/// Clamp a raw density control value to the documented range `[0, SCALE]`.
pub fn clamp_density_control(raw: i64) -> (d: u32)
    ensures
        d == clamped(raw as int, 0, SCALE as int),
{
    if raw < 0 {
        0
    } else if raw > SCALE as i64 {
        SCALE
    } else {
        raw as u32
    }
}

/// Clamp a raw velocity-axis control value to the documented range
/// `[-SCALE, SCALE]`.
pub fn clamp_axis_control(raw: i64) -> (v: i32)
    ensures
        v == clamped(raw as int, -(SCALE_I as int), SCALE_I as int),
{
    if raw < -(SCALE_I as i64) {
        -SCALE_I
    } else if raw > SCALE_I as i64 {
        SCALE_I
    } else {
        raw as i32
    }
}

} // verus!
