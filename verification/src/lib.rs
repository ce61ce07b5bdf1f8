//! Turns per-cycle control samples and a MIDI pitch-bend stream into key presses.
//!
//! Once per processing cycle the host hands over a snapshot of its control
//! inputs, the MIDI messages of the cycle and the time. The library answers
//! with the key sequences to inject, in order, and keeps the state that
//! outlives the cycle: one latch per key binding, the last pitch-bend value
//! and the time of the last seek.
pub mod control;
pub mod keymap;
pub mod midi;
pub mod pitch;
pub mod plugin;
