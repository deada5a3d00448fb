use mouse_steering::config::{Config, ConfigError, ConfigToml, ControlConfig, ControlConfigToml};

fn empty_axis() -> ControlConfigToml {
    ControlConfigToml {
        enabled: None,
        precise_input: None,
        snap_input: None,
        snap_threshold: None,
        edge_scaling: None,
        scaling_threshold: None,
    }
}

fn assert_default_axis(c: &ControlConfig) {
    assert!(c.enabled && c.precise_input && c.snap_input && !c.edge_scaling);
    assert_eq!(c.snap_threshold, 100_000);
    assert_eq!(c.scaling_threshold, 500_000);
}

#[test]
fn defaults_fill_an_empty_file() {
    let raw = ConfigToml {
        screen_width: None,
        screen_height: None,
        steering_config: None,
        throttle_config: Some(empty_axis()),
    };
    let config = Config::to_config(raw);
    assert_eq!((config.screen_width, config.screen_height), (1280, 720));
    assert_default_axis(&config.steering_config);
    assert_default_axis(&config.throttle_config);
    assert_eq!(config.validate(), Ok(()));
}

#[test]
fn given_entries_win_over_defaults() {
    let mut axis = empty_axis();
    axis.snap_threshold = Some(250_000);
    axis.precise_input = Some(false);
    let raw = ConfigToml {
        screen_width: Some(1920),
        screen_height: None,
        steering_config: Some(axis),
        throttle_config: None,
    };
    let config = Config::to_config(raw);
    assert_eq!((config.screen_width, config.screen_height), (1920, 720));
    assert_eq!(config.steering_config.snap_threshold, 250_000);
    assert!(!config.steering_config.precise_input);
    assert_default_axis(&config.throttle_config);
}

#[test]
fn get_defaults_is_complete() {
    let raw = ConfigToml::get_defaults();
    assert_eq!(raw.screen_width, Some(1280));
    assert_eq!(raw.screen_height, Some(720));
    let axis = ControlConfigToml::get_defaults();
    assert_eq!(axis.snap_threshold, Some(100_000));
    assert_eq!(axis.scaling_threshold, Some(500_000));
    assert_eq!(axis.edge_scaling, Some(false));
}

#[test]
fn empty_range_is_rejected() {
    let mut config = Config::to_config(ConfigToml::get_defaults());
    config.screen_width = 0;
    assert_eq!(config.validate(), Err(ConfigError::InvalidRange));
    config.screen_width = 1280;
    config.screen_height = -4;
    assert_eq!(config.validate(), Err(ConfigError::InvalidRange));
}

#[test]
fn zero_scaling_threshold_is_rejected() {
    let mut config = Config::to_config(ConfigToml::get_defaults());
    config.throttle_config.scaling_threshold = 0;
    assert_eq!(config.validate(), Ok(()));
    config.throttle_config.edge_scaling = true;
    assert_eq!(config.validate(), Err(ConfigError::InvalidScalingThreshold));
    assert!(!config.throttle_config.is_valid());
    assert!(config.steering_config.is_valid());
}
