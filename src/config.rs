//! Per-axis shaping settings and the run's configuration.

use vstd::prelude::*;

verus! {

/// Shaping settings of one axis.
///
/// Thresholds are fixed point: `UNIT` (one million) stands for 1.0, so a
/// snap threshold of 0.1 is `100_000`. Being unsigned, they are never
/// negative.
pub struct ControlConfig {
    pub enabled: bool,
    pub precise_input: bool,
    pub snap_input: bool,
    pub snap_threshold: u32,
    pub edge_scaling: bool,
    pub scaling_threshold: u32,
}

impl ControlConfig {
    /// Edge scaling divides by the scaling threshold, which must not be zero.
    pub open spec fn wf(&self) -> bool {
        self.edge_scaling ==> self.scaling_threshold > 0
    }
}

/// Screen extent and the settings of both axes.
pub struct Config {
    pub screen_width: i32,
    pub screen_height: i32,
    pub steering_config: ControlConfig,
    pub throttle_config: ControlConfig,
}

impl Config {
    /// Both extents are positive and both axes are well formed.
    pub open spec fn wf(&self) -> bool {
        &&& self.screen_width > 0
        &&& self.screen_height > 0
        &&& self.steering_config.wf()
        &&& self.throttle_config.wf()
    }
}

/// Why a configuration or a tick was refused.
#[derive(Debug, Clone, Copy, PartialEq, Eq, Structural)]
pub enum ConfigError {
    /// A screen extent is not positive, so normalization has an empty range.
    InvalidRange,
    /// Edge scaling is on with a scaling threshold of zero.
    InvalidScalingThreshold,
    /// The pointer source or the gamepad sink failed during a tick.
    SinkUnavailable,
}

impl Config {
    /// Checks the configuration once, at startup.
    pub fn validate(&self) -> (r: Result<(), ConfigError>)
        ensures
            r is Ok <==> self.wf(),
            r == Err::<(), _>(ConfigError::InvalidRange) <==> (self.screen_width <= 0
                || self.screen_height <= 0),
            r == Err::<(), _>(ConfigError::InvalidScalingThreshold) <==> (self.screen_width > 0
                && self.screen_height > 0 && !(self.steering_config.wf()
                && self.throttle_config.wf())),
    {
        if self.screen_width <= 0 || self.screen_height <= 0 {
            Err(ConfigError::InvalidRange)
        } else if !self.steering_config.is_valid() || !self.throttle_config.is_valid() {
            Err(ConfigError::InvalidScalingThreshold)
        } else {
            Ok(())
        }
    }
}

impl ControlConfig {
    /// Whether the settings are well formed.
    pub fn is_valid(&self) -> (r: bool)
        ensures
            r == self.wf(),
    {
        !self.edge_scaling || self.scaling_threshold > 0
    }
}

/// The configuration as read from a file, where every entry may be missing.
pub struct ConfigToml {
    pub screen_width: Option<i32>,
    pub screen_height: Option<i32>,
    pub steering_config: Option<ControlConfigToml>,
    pub throttle_config: Option<ControlConfigToml>,
}

/// The settings of one axis as read from a file; thresholds in millionths.
pub struct ControlConfigToml {
    pub enabled: Option<bool>,
    pub precise_input: Option<bool>,
    pub snap_input: Option<bool>,
    pub snap_threshold: Option<u32>,
    pub edge_scaling: Option<bool>,
    pub scaling_threshold: Option<u32>,
}

/// `o`'s value, or `d` where it is missing.
pub open spec fn or_default<T>(o: Option<T>, d: T) -> T {
    match o {
        Some(v) => v,
        None => d,
    }
}

/// Default screen width.
pub const DEFAULT_WIDTH: i32 = 1280;

/// Default screen height.
pub const DEFAULT_HEIGHT: i32 = 720;

/// Default snap threshold, 0.1.
pub const DEFAULT_SNAP_THRESHOLD: u32 = 100_000;

/// Default scaling threshold, 0.5.
pub const DEFAULT_SCALING_THRESHOLD: u32 = 500_000;

/// The settings of an axis with every missing entry taken from the defaults.
pub open spec fn merged_control(c: ControlConfigToml) -> ControlConfig {
    ControlConfig {
        enabled: or_default(c.enabled, true),
        precise_input: or_default(c.precise_input, true),
        snap_input: or_default(c.snap_input, true),
        snap_threshold: or_default(c.snap_threshold, DEFAULT_SNAP_THRESHOLD),
        edge_scaling: or_default(c.edge_scaling, false),
        scaling_threshold: or_default(c.scaling_threshold, DEFAULT_SCALING_THRESHOLD),
    }
}

/// The settings of an axis whose whole table may be missing.
pub open spec fn merged_axis(c: Option<ControlConfigToml>) -> ControlConfig {
    match c {
        Some(c) => merged_control(c),
        None => merged_control(ControlConfigToml::spec_defaults()),
    }
}

impl ControlConfigToml {
    pub open spec fn spec_defaults() -> ControlConfigToml {
        ControlConfigToml {
            enabled: Some(true),
            precise_input: Some(true),
            snap_input: Some(true),
            snap_threshold: Some(DEFAULT_SNAP_THRESHOLD),
            edge_scaling: Some(false),
            scaling_threshold: Some(DEFAULT_SCALING_THRESHOLD),
        }
    }

    /// Every entry present, with its default value.
    pub fn get_defaults() -> (r: ControlConfigToml)
        ensures
            r == Self::spec_defaults(),
    {
        ControlConfigToml {
            enabled: Some(true),
            precise_input: Some(true),
            snap_input: Some(true),
            snap_threshold: Some(DEFAULT_SNAP_THRESHOLD),
            edge_scaling: Some(false),
            scaling_threshold: Some(DEFAULT_SCALING_THRESHOLD),
        }
    }
}

impl ConfigToml {
    /// Every entry present, with its default value.
    pub fn get_defaults() -> (r: ConfigToml)
        ensures
            r.screen_width == Some(DEFAULT_WIDTH),
            r.screen_height == Some(DEFAULT_HEIGHT),
            r.steering_config == Some(ControlConfigToml::spec_defaults()),
            r.throttle_config == Some(ControlConfigToml::spec_defaults()),
    {
        ConfigToml {
            screen_width: Some(DEFAULT_WIDTH),
            screen_height: Some(DEFAULT_HEIGHT),
            steering_config: Some(ControlConfigToml::get_defaults()),
            throttle_config: Some(ControlConfigToml::get_defaults()),
        }
    }
}

impl ControlConfig {
    /// Fills every missing entry with its default.
    pub fn to_control_config(config: ControlConfigToml) -> (r: ControlConfig)
        ensures
            r == merged_control(config),
    {
        ControlConfig {
            enabled: config.enabled.unwrap_or(true),
            precise_input: config.precise_input.unwrap_or(true),
            snap_input: config.snap_input.unwrap_or(true),
            snap_threshold: config.snap_threshold.unwrap_or(DEFAULT_SNAP_THRESHOLD),
            edge_scaling: config.edge_scaling.unwrap_or(false),
            scaling_threshold: config.scaling_threshold.unwrap_or(DEFAULT_SCALING_THRESHOLD),
        }
    }
}

impl Config {
    /// Fills every missing entry, and every missing axis table, with the
    /// defaults.
    pub fn to_config(config: ConfigToml) -> (r: Config)
        ensures
            r.screen_width == or_default(config.screen_width, DEFAULT_WIDTH),
            r.screen_height == or_default(config.screen_height, DEFAULT_HEIGHT),
            r.steering_config == merged_axis(config.steering_config),
            r.throttle_config == merged_axis(config.throttle_config),
    {
        let steering_config = match config.steering_config {
            Some(c) => ControlConfig::to_control_config(c),
            None => ControlConfig::to_control_config(ControlConfigToml::get_defaults()),
        };
        let throttle_config = match config.throttle_config {
            Some(c) => ControlConfig::to_control_config(c),
            None => ControlConfig::to_control_config(ControlConfigToml::get_defaults()),
        };
        Config {
            screen_width: config.screen_width.unwrap_or(DEFAULT_WIDTH),
            screen_height: config.screen_height.unwrap_or(DEFAULT_HEIGHT),
            steering_config,
            throttle_config,
        }
    }
}

} // verus!
