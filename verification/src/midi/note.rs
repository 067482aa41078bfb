//! The note record produced by the pairing pass, and the visibility window
//! used by consumers that show a scrolling view of the notes.

use vstd::prelude::*;

use crate::midi::tempo::MAX_TIME_UNITS;

verus! {

/// One sounding note, immutable once produced.
///
/// `start_time` and `duration` are in exact time units (see
/// [`crate::midi::tempo`]): one unit is one tick-microsecond-per-beat, and
/// the parser reports alongside its output how many units make one second.
#[derive(Clone, Copy, Debug, PartialEq, Eq, Structural)]
pub struct Note {
    /// MIDI key number, 0 to 127.
    pub pitch: u8,
    /// Velocity captured from the opening note-on, 0 to 127.
    pub velocity: u8,
    /// Time units elapsed from the start of the track to the note-on.
    pub start_time: u128,
    /// Length of the note in time units.
    pub duration: u128,
    /// MIDI channel, 0 to 15.
    pub channel: u8,
}

/// The visibility window: a note is visible when it starts no later than 85%
/// of the window ahead of the current time, and ends no earlier than 15% of
/// the window behind it. Stated over unbounded integers, scaled by 100 so
/// that the 15/85 split stays exact.
pub open spec fn spec_visible(start: int, end: int, current_time: int, time_window: int) -> bool {
    &&& 100 * start <= 100 * current_time + 85 * time_window
    &&& 100 * end + 15 * time_window >= 100 * current_time
}

impl Note {
    /// Field ranges that every note produced by the parser satisfies; they
    /// keep all time arithmetic on notes free of overflow.
    pub open spec fn wf(&self) -> bool {
        &&& self.pitch < 128
        &&& self.velocity < 128
        &&& self.channel < 16
        &&& self.start_time <= MAX_TIME_UNITS
        &&& self.duration <= MAX_TIME_UNITS
    }

    /// Creates a note with the given parameters.
    pub fn new(pitch: u8, velocity: u8, start_time: u128, duration: u128, channel: u8) -> (n: Note)
        ensures
            n == (Note { pitch, velocity, start_time, duration, channel }),
    {
        Note { pitch, velocity, start_time, duration, channel }
    }

    /// The time at which the note stops sounding; always derived, never
    /// stored.
    pub fn end_time(&self) -> (e: u128)
        requires
            self.wf(),
        ensures
            e == self.start_time + self.duration,
    {
        self.start_time + self.duration
    }

    /// Whether the note is inside the asymmetric visibility window around
    /// `current_time`: 15% of the window looks back, 85% looks ahead.
    pub fn is_visible(&self, current_time: u128, time_window: u128) -> (v: bool)
        requires
            self.wf(),
            current_time <= MAX_TIME_UNITS,
            time_window <= MAX_TIME_UNITS,
        ensures
            v == spec_visible(
                self.start_time as int,
                self.start_time + self.duration,
                current_time as int,
                time_window as int,
            ),
    {
        let end: u128 = self.start_time + self.duration;
        let starts_in_time: bool = 100 * self.start_time <= 100 * current_time + 85 * time_window;
        let ends_in_time: bool = 100 * end + 15 * time_window >= 100 * current_time;
        starts_in_time && ends_in_time
    }
}

} // verus!
