//! The decision logic of an analog-style strobe tuner: tuning presets and
//! note names, the key-driven selection state, the hysteresis that commits an
//! automatically detected string, and the text shown in the status panel.

pub mod config;
pub mod detector;
pub mod app;
pub mod notes;
pub mod ui;
