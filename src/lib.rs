//! Keeps an illuminated keyboard dimmed while idle and restores it smoothly
//! on input activity.
//!
//! The library holds the decisions: brightness conversions, the fade engine,
//! the dim/restore state machine, the wake scheduler and the bookkeeping of
//! input sources. Reading devices and waiting for readiness is left to the
//! program that drives it.
pub mod backlight;
pub mod control;
pub mod discovery;
pub mod controller;
pub mod fade;
pub mod fader;
pub mod level;
pub mod sources;
