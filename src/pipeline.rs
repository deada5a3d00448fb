//! One tick of the pipeline: gate, normalize, shape and quantize both axes.

use vstd::prelude::*;
use crate::config::{Config, ControlConfig};
use crate::key::Key;
use crate::processor::{Processor, UNIT, normalized, shaped, split_of, thumb_of, trigger_of};

verus! {

/// What one tick hands to the gamepad and to the display.
pub struct Output {
    /// Signed thumbstick value of the lateral axis.
    pub thumb_lx: i16,
    pub left_trigger: u8,
    pub right_trigger: u8,
    /// Shaped lateral value before quantization.
    pub steer: i64,
    /// Shaped vertical value before quantization.
    pub throttle: i64,
    /// The lateral axis is disabled or frozen.
    pub steer_neutral: bool,
    /// The vertical axis is disabled or frozen.
    pub throttle_neutral: bool,
}

/// The shaped value of one axis: neutral while the axis is disabled or
/// frozen, else the shaped normalization of `position` over `[0, extent]`.
pub open spec fn axis_value(position: int, extent: int, config: ControlConfig, frozen: bool) -> int {
    if config.enabled && !frozen {
        shaped(normalized(position, 0, extent), config)
    } else {
        0
    }
}

/// The shaped value of one axis, computed only when the axis is live.
pub fn axis(position: i32, extent: i32, config: &ControlConfig, gate: &Key) -> (r: i64)
    requires
        extent > 0,
        config.wf(),
    ensures
        r == axis_value(position as int, extent as int, *config, gate.latched()),
        -UNIT <= r <= UNIT,
{
    if config.enabled && !gate.is_frozen() {
        let normal = Processor::normalize(position, 0, extent);
        Processor::process(normal, config)
    } else {
        0
    }
}

/// Computes the output of one tick from the pointer position and the two
/// gates.
///
/// A frozen axis is exactly neutral wherever the pointer is: a zero
/// thumbstick for the lateral axis, two zero triggers for the vertical one.
pub fn tick(x: i32, y: i32, config: &Config, steer_key: &Key, throttle_key: &Key) -> (r: Output)
    requires
        config.wf(),
    ensures
        r.steer == axis_value(
            x as int,
            config.screen_width as int,
            config.steering_config,
            steer_key.latched(),
        ),
        r.throttle == axis_value(
            y as int,
            config.screen_height as int,
            config.throttle_config,
            throttle_key.latched(),
        ),
        r.steer_neutral == (!config.steering_config.enabled || steer_key.latched()),
        r.throttle_neutral == (!config.throttle_config.enabled || throttle_key.latched()),
        -UNIT <= r.steer <= UNIT,
        -UNIT <= r.throttle <= UNIT,
        r.thumb_lx == thumb_of(r.steer as int),
        r.left_trigger == trigger_of(split_of(r.throttle as int).0),
        r.right_trigger == trigger_of(split_of(r.throttle as int).1),
        steer_key.latched() ==> r.steer == 0 && r.thumb_lx == 0,
        throttle_key.latched() ==> r.throttle == 0 && r.left_trigger == 0 && r.right_trigger == 0,
{
    let steer = axis(x, config.screen_width, &config.steering_config, steer_key);
    let throttle = axis(y, config.screen_height, &config.throttle_config, throttle_key);
    let (left, right) = Processor::split(throttle);
    Output {
        thumb_lx: Processor::to_thumb_val(steer),
        left_trigger: Processor::to_trigger_val(left),
        right_trigger: Processor::to_trigger_val(right),
        steer,
        throttle,
        steer_neutral: !config.steering_config.enabled || steer_key.is_frozen(),
        throttle_neutral: !config.throttle_config.enabled || throttle_key.is_frozen(),
    }
}

} // verus!
