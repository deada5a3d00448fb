//! The shaping pipeline: normalization, snap and deadzone policy, and
//! quantization to the gamepad's integer ranges.
//!
//! Signals are fixed point: `UNIT` stands for 1.0, so a normalized value
//! lies in `[-UNIT, UNIT]` while the pointer is on screen.

use vstd::prelude::*;
use crate::config::ControlConfig;

verus! {

/// Fixed-point steps per 1.0 of a signal or a threshold.
pub const UNIT: i64 = 1_000_000;

/// Largest magnitude of the signed thumbstick channel.
pub const SIGNED_MAX: i64 = 32767;

/// Largest value of an unsigned trigger channel.
pub const UNSIGNED_MAX: i64 = 255;

/// Integer division rounding toward zero (for `d > 0`).
pub open spec fn div_toward_zero(n: int, d: int) -> int {
    if n >= 0 {
        n / d
    } else {
        -((-n) / d)
    }
}

/// `2 * (value - min) / (max - min) - 1`, in fixed point, rounded toward zero.
pub open spec fn normalized(value: int, min: int, max: int) -> int {
    div_toward_zero((2 * (value - min) - (max - min)) * UNIT, max - min)
}

pub open spec fn abs(v: int) -> int {
    if v < 0 {
        -v
    } else {
        v
    }
}

/// `sign(v)` as a full-scale signal.
pub open spec fn full_scale_sign(v: int) -> int {
    if v > 0 {
        UNIT as int
    } else if v < 0 {
        -UNIT
    } else {
        0
    }
}

/// `v` clamped to `[-UNIT, UNIT]`.
pub open spec fn clamped(v: int) -> int {
    if v > UNIT {
        UNIT as int
    } else if v < -UNIT {
        -UNIT
    } else {
        v
    }
}

/// Snap: values within `edge` of either extreme go to that extreme; else
/// values within `center` of zero go to zero; the result is clamped.
pub open spec fn snapped(value: int, edge: int, center: int) -> int {
    clamped(
        if abs(value) >= UNIT - edge {
            full_scale_sign(value)
        } else if abs(value) <= center {
            0
        } else {
            value
        },
    )
}

/// Deadzone only: values within `center` of zero go to zero; the result is
/// clamped.
pub open spec fn deadzoned(value: int, center: int) -> int {
    clamped(if abs(value) <= center { 0 } else { value })
}

/// `value` divided by a fixed-point divisor, rounded toward zero.
pub open spec fn scaled(value: int, divisor: int) -> int {
    div_toward_zero(value * UNIT, divisor)
}

/// The shaped value of a normalized value under an axis's settings.
///
/// Precision branch: optional edge scaling, then snap with the snap
/// threshold as both edge and center threshold, or a plain clamp. Legacy
/// branch: no edge snapping, a center deadzone of the snap threshold (or of
/// zero without snapping), and a clamp.
pub open spec fn shaped(value: int, config: ControlConfig) -> int {
    if config.precise_input {
        let v = if config.edge_scaling {
            scaled(value, config.scaling_threshold as int)
        } else {
            value
        };
        if config.snap_input {
            snapped(v, config.snap_threshold as int, config.snap_threshold as int)
        } else {
            clamped(v)
        }
    } else if config.snap_input {
        deadzoned(value, config.snap_threshold as int)
    } else {
        deadzoned(value, 0)
    }
}

/// The thumbstick value of a signal in `[-UNIT, UNIT]`.
pub open spec fn thumb_of(value: int) -> int {
    div_toward_zero(value * SIGNED_MAX, UNIT as int)
}

/// The trigger value of a magnitude in `[0, UNIT]`.
pub open spec fn trigger_of(value: int) -> int {
    value * UNSIGNED_MAX / (UNIT as int)
}

/// A shaped vertical value split into two trigger magnitudes: a value at or
/// below zero drives the left trigger, a positive one the right.
pub open spec fn split_of(value: int) -> (int, int) {
    if value <= 0 {
        (-value, 0)
    } else {
        (0, value)
    }
}

fn div_toward_zero_exec(n: i128, d: i128) -> (r: i128)
    requires
        d > 0,
        n > i128::MIN,
    ensures
        r == div_toward_zero(n as int, d as int),
{
    if n >= 0 {
        n / d
    } else {
        -((-n) / d)
    }
}

pub struct Processor;

impl Processor {
    /// Maps `value` in `[min, max]` linearly onto `[-UNIT, UNIT]`; values
    /// outside the range extrapolate and are not clamped.
    pub fn normalize(value: i32, min: i32, max: i32) -> (r: i64)
        requires
            min < max,
        ensures
            r == normalized(value as int, min as int, max as int),
    {
        let span: i64 = max as i64 - min as i64;
        let offset: i64 = value as i64 - min as i64;
        let numerator: i64 = (2 * offset - span) * UNIT;
        div_toward_zero_exec(numerator as i128, span as i128) as i64
    }

    /// Snap with an edge threshold and a center threshold, in fixed point.
    ///
    /// The edge test comes first; the result always lies in
    /// `[-UNIT, UNIT]`, whatever the thresholds.
    pub fn apply_snap(value: i128, edge_threshold: i64, center_threshold: i64) -> (r: i128)
        ensures
            r == snapped(value as int, edge_threshold as int, center_threshold as int),
            -UNIT <= r <= UNIT,
    {
        let reach: i128 = UNIT as i128 - edge_threshold as i128;
        let result: i128 = if value >= reach || value <= -reach {
            if value > 0 {
                UNIT as i128
            } else if value < 0 {
                -(UNIT as i128)
            } else {
                0
            }
        } else if -(center_threshold as i128) <= value && value <= center_threshold as i128 {
            0
        } else {
            value
        };
        Self::clamp(result)
    }

    /// Deadzone without edge snapping, in fixed point; the result always
    /// lies in `[-UNIT, UNIT]`.
    pub fn apply_deadzone(value: i128, center_threshold: i64) -> (r: i128)
        ensures
            r == deadzoned(value as int, center_threshold as int),
            -UNIT <= r <= UNIT,
    {
        if -(center_threshold as i128) <= value && value <= center_threshold as i128 {
            0
        } else {
            Self::clamp(value)
        }
    }

    /// `value` clamped to `[-UNIT, UNIT]`.
    pub fn clamp(value: i128) -> (r: i128)
        ensures
            r == clamped(value as int),
    {
        if value > UNIT as i128 {
            UNIT as i128
        } else if value < -(UNIT as i128) {
            -(UNIT as i128)
        } else {
            value
        }
    }

    /// Shapes a normalized value under an axis's settings; the result lies
    /// in `[-UNIT, UNIT]`.
    pub fn process(value: i64, config: &ControlConfig) -> (r: i64)
        requires
            config.wf(),
        ensures
            r == shaped(value as int, *config),
            -UNIT <= r <= UNIT,
    {
        if config.precise_input {
            let v: i128 = if config.edge_scaling {
                proof {
                    assert(-0x8000_0000_0000_0000 * UNIT <= value * UNIT <= 0x8000_0000_0000_0000 * UNIT)
                        by (nonlinear_arith)
                        requires
                            -0x8000_0000_0000_0000 <= value <= 0x8000_0000_0000_0000,
                    ;
                }
                div_toward_zero_exec(value as i128 * UNIT as i128, config.scaling_threshold as i128)
            } else {
                value as i128
            };
            if config.snap_input {
                Self::apply_snap(v, config.snap_threshold as i64, config.snap_threshold as i64) as i64
            } else {
                Self::clamp(v) as i64
            }
        } else if config.snap_input {
            Self::apply_deadzone(value as i128, config.snap_threshold as i64) as i64
        } else {
            Self::apply_deadzone(value as i128, 0) as i64
        }
    }

    /// Quantizes a signal in `[-UNIT, UNIT]` to the signed thumbstick range,
    /// rounding toward zero.
    pub fn to_thumb_val(value: i64) -> (r: i16)
        requires
            -UNIT <= value <= UNIT,
        ensures
            r == thumb_of(value as int),
            -SIGNED_MAX <= r <= SIGNED_MAX,
    {
        proof {
            assert(-UNIT * SIGNED_MAX <= value * SIGNED_MAX <= UNIT * SIGNED_MAX) by (nonlinear_arith)
                requires
                    -UNIT <= value <= UNIT,
            ;
        }
        let q: i128 = div_toward_zero_exec(value as i128 * SIGNED_MAX as i128, UNIT as i128);
        q as i16
    }

    /// Quantizes a magnitude in `[0, UNIT]` to the unsigned trigger range,
    /// rounding down.
    pub fn to_trigger_val(value: i64) -> (r: u8)
        requires
            0 <= value <= UNIT,
        ensures
            r == trigger_of(value as int),
    {
        proof {
            assert(0 <= value * UNSIGNED_MAX <= UNIT * UNSIGNED_MAX) by (nonlinear_arith)
                requires
                    0 <= value <= UNIT,
            ;
        }
        (value * UNSIGNED_MAX / UNIT) as u8
    }

    /// Splits a shaped vertical value into the magnitudes of the left and
    /// the right trigger.
    pub fn split(value: i64) -> (r: (i64, i64))
        requires
            -UNIT <= value <= UNIT,
        ensures
            (r.0 as int, r.1 as int) == split_of(value as int),
    {
        if value <= 0 {
            (-value, 0)
        } else {
            (0, value)
        }
    }
}

} // verus!

verus! {

/// Normalization sends the ends of the range to the extremes and its middle
/// to zero, up to the width of one step of the input.
pub proof fn lemma_normalize_ends(min: int, max: int)
    requires
        min < max,
    ensures
        normalized(min, min, max) == -UNIT,
        normalized(max, min, max) == UNIT,
        abs(normalized((min + max) / 2, min, max)) * (max - min) <= UNIT,
{
    let span = max - min;
    assert(normalized(min, min, max) == -UNIT) by {
        assert((2 * (min - min) - span) * UNIT == -(span * UNIT)) by (nonlinear_arith)
            requires
                span == max - min,
        ;
        vstd::arithmetic::div_mod::lemma_div_by_multiple(UNIT as int, span);
    }
    assert(normalized(max, min, max) == UNIT) by {
        assert((2 * (max - min) - span) * UNIT == span * UNIT) by (nonlinear_arith)
            requires
                span == max - min,
        ;
        vstd::arithmetic::div_mod::lemma_div_by_multiple(UNIT as int, span);
    }
    let mid = (min + max) / 2;
    let twice = 2 * (mid - min) - span;
    assert(twice == 0 || twice == -1);
    if twice == 0 {
        assert(twice * UNIT == 0);
        assert(normalized(mid, min, max) == 0);
        let a = abs(normalized(mid, min, max));
        assert(a == 0);
        assert(a * span == 0) by (nonlinear_arith)
            requires
                a == 0,
        ;
    } else {
        assert(twice * UNIT == -UNIT);
        let q = (UNIT as int) / span;
        assert(normalized(mid, min, max) == -q);
        vstd::arithmetic::div_mod::lemma_fundamental_div_mod(UNIT as int, span);
        assert(q * span <= UNIT) by (nonlinear_arith)
            requires
                span > 0,
                UNIT as int == span * q + (UNIT as int) % span,
                (UNIT as int) % span >= 0,
        ;
        assert(q >= 0);
        assert(abs(normalized(mid, min, max)) * span == q * span);
    }
}

/// Snap lands in `[-UNIT, UNIT]` for every value and every pair of
/// thresholds.
pub proof fn lemma_snap_bounded(value: int, edge: int, center: int)
    ensures
        -UNIT <= snapped(value, edge, center) <= UNIT,
{
}

/// Snapping an already snapped value changes nothing, for thresholds that
/// are not negative.
pub proof fn lemma_snap_idempotent(value: int, edge: int, center: int)
    requires
        edge >= 0,
        center >= 0,
    ensures
        snapped(snapped(value, edge, center), edge, center) == snapped(value, edge, center),
{
}

} // verus!
