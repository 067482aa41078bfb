//! A MIDI event decoder and tempo-aware timing engine for very dense
//! ("black MIDI") files: it reconstructs the start time and length of every
//! note from a stream of delta-tick events and tempo changes, pairs note-on
//! with note-off events per (pitch, channel), and merges all tracks into one
//! note list sorted by start time.
//!
//! Time is kept in exact integer units throughout — one unit is one
//! tick-microsecond-per-beat — so every contract here is exact; a parse
//! reports how many units make one second, and consumers divide once at the
//! boundary.

pub mod config;
pub mod midi;
pub mod renderer;
