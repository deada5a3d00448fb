use mouse_steering::config::{Config, ControlConfig};
use mouse_steering::key::Key;
use mouse_steering::pipeline::{axis, tick};

fn axis_config(snap_threshold: u32) -> ControlConfig {
    ControlConfig {
        enabled: true,
        precise_input: true,
        snap_input: true,
        snap_threshold,
        edge_scaling: false,
        scaling_threshold: 500_000,
    }
}

fn config() -> Config {
    Config {
        screen_width: 40,
        screen_height: 40,
        steering_config: axis_config(100_000),
        throttle_config: axis_config(100_000),
    }
}

#[test]
fn key_starts_live() {
    let key = Key::new();
    assert!(!key.value);
    assert!(!key.is_frozen());
}

#[test]
fn key_press_release_flips_once() {
    let mut key = Key::new();
    key.update(true);
    assert!(key.value);
    key.update(false);
    assert!(key.value);
    key.update(false);
    assert!(key.value);
}

#[test]
fn key_held_flips_only_once() {
    let mut key = Key::new();
    for _ in 0..10 {
        key.update(true);
        assert!(key.value);
    }
    key.update(false);
    assert!(key.value);
}

#[test]
fn key_three_tick_press_then_second_press() {
    let mut key = Key::new();
    let mut states = vec![key.value];
    for pressing in [true, true, true, false] {
        key.update(pressing);
        states.push(key.value);
    }
    assert_eq!(states, vec![false, true, true, true, true]);
    key.update(true);
    assert!(!key.value);
    key.update(false);
    assert!(!key.value);
}

#[test]
fn frozen_axis_is_neutral_anywhere() {
    let config = config();
    let mut steer = Key::new();
    let mut throttle = Key::new();
    steer.update(true);
    throttle.update(true);
    for &(x, y) in [(0, 0), (39, 39), (40, 10), (-500, 900), (20, 20)].iter() {
        let out = tick(x, y, &config, &steer, &throttle);
        assert_eq!(out.thumb_lx, 0);
        assert_eq!(out.steer, 0);
        assert_eq!((out.left_trigger, out.right_trigger), (0, 0));
        assert_eq!(out.throttle, 0);
        assert!(out.steer_neutral && out.throttle_neutral);
    }
}

#[test]
fn live_tick_shapes_both_axes() {
    let config = config();
    let steer = Key::new();
    let throttle = Key::new();
    let out = tick(39, 10, &config, &steer, &throttle);
    assert_eq!(out.steer, 1_000_000);
    assert_eq!(out.thumb_lx, 32767);
    assert_eq!(out.throttle, -500_000);
    assert_eq!((out.left_trigger, out.right_trigger), (127, 0));
    assert!(!out.steer_neutral && !out.throttle_neutral);
    let out = tick(20, 30, &config, &steer, &throttle);
    assert_eq!(out.thumb_lx, 0);
    assert_eq!((out.left_trigger, out.right_trigger), (0, 127));
}

#[test]
fn disabled_axis_is_neutral() {
    let mut config = config();
    config.throttle_config.enabled = false;
    let out = tick(39, 39, &config, &Key::new(), &Key::new());
    assert_eq!(out.thumb_lx, 32767);
    assert_eq!((out.left_trigger, out.right_trigger), (0, 0));
    assert!(out.throttle_neutral && !out.steer_neutral);
}

#[test]
fn axes_use_their_own_thresholds() {
    let mut config = config();
    config.steering_config = axis_config(300_000);
    // 0.25 lies inside the lateral deadzone but outside the vertical one.
    let out = tick(25, 25, &config, &Key::new(), &Key::new());
    assert_eq!(out.steer, 0);
    assert_eq!(out.throttle, 250_000);
    assert_eq!(axis(25, 40, &config.throttle_config, &Key::new()), 250_000);
}

#[test]
fn one_gate_does_not_freeze_the_other_axis() {
    let config = config();
    let mut steer = Key::new();
    steer.update(true);
    let out = tick(39, 10, &config, &steer, &Key::new());
    assert_eq!(out.thumb_lx, 0);
    assert_eq!((out.left_trigger, out.right_trigger), (127, 0));
}
