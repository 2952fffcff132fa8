//! Poly router: a polyphonic microtonal MIDI router.
//!
//! The library holds the router's discrete logic: voice allocation and
//! message routing, the parsers for Scala scale and keyboard-mapping text,
//! the guitar-grid layout, presets and the terminal interface's key handling.
//! Pitch arithmetic in floating point lives with the application.

pub mod midi;
pub mod text;
pub mod scala;
pub mod grid;
pub mod presets;
pub mod ui;
pub mod tuning;
pub mod modes;
pub mod keys;
