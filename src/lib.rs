//! Turns a pointer position into analog controller signals: normalization,
//! deadzone and snap shaping, a toggle lock per axis and quantization to the
//! integer ranges of a virtual gamepad.

pub mod config;
pub mod gui;
pub mod key;
pub mod pipeline;
pub mod processor;
pub mod visualizer;
