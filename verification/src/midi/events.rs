//! Plain-value model of the decoded contents of a Standard MIDI File.
//!
//! The event stream reader (an outside decoder) hands the rest of the library
//! values of these types only: every field is a bounded integer, so the whole
//! timing engine can be reasoned about exactly.

use vstd::prelude::*;

verus! {

/// The kinds of track events that the timing engine consumes.
///
/// Everything that is neither a note-on, a note-off nor a tempo change is
/// collapsed into `Other` and ignored by the engine.
#[derive(Clone, Copy, Debug, PartialEq, Eq, Structural)]
pub enum EventKind {
    NoteOn { channel: u8, pitch: u8, velocity: u8 },
    NoteOff { channel: u8, pitch: u8 },
    Tempo { micros_per_beat: u32 },
    Other,
}

/// One track event: a delta time in ticks since the previous event, plus the
/// event kind.
#[derive(Clone, Copy, Debug, PartialEq, Eq, Structural)]
pub struct TimedEvent {
    /// Ticks since the previous event of the same track.
    pub delta: u32,
    /// What the event is.
    pub kind: EventKind,
}

/// The timing resolution declared by the file header: either ticks per
/// quarter note, or an SMPTE frame rate with a sub-frame resolution.
#[derive(Clone, Copy, Debug, PartialEq, Eq, Structural)]
pub enum TimingKind {
    Metrical { ticks_per_beat: u16 },
    Timecode { fps: FrameRate, subframe: u8 },
}

/// The four SMPTE frame rates a MIDI header can declare.
#[derive(Clone, Copy, Debug, PartialEq, Eq, Structural)]
pub enum FrameRate {
    F24,
    F25,
    /// 29.97 frames per second (drop-frame timecode).
    F29,
    F30,
}

/// A channel event is well formed when its fields are within the ranges the
/// MIDI wire format can encode: channel 0-15, pitch and velocity 0-127,
/// delta below 2^28 and tempo below 2^24.
pub open spec fn valid_event(e: TimedEvent) -> bool {
    &&& e.delta < 0x10000000
    &&& match e.kind {
        EventKind::NoteOn { channel, pitch, velocity } => channel < 16 && pitch < 128 && velocity < 128,
        EventKind::NoteOff { channel, pitch } => channel < 16 && pitch < 128,
        EventKind::Tempo { micros_per_beat } => micros_per_beat < 0x1000000,
        EventKind::Other => true,
    }
}

/// All events of a track are well formed.
pub open spec fn valid_events(events: Seq<TimedEvent>) -> bool {
    forall|i: int| 0 <= i < events.len() ==> valid_event(#[trigger] events[i])
}

/// Hundredths of frames per second for each SMPTE rate, so that the exotic
/// 29.97 rate is held exactly.
pub open spec fn frame_rate_centi(fps: FrameRate) -> u32 {
    match fps {
        FrameRate::F24 => 2400,
        FrameRate::F25 => 2500,
        FrameRate::F29 => 2997,
        FrameRate::F30 => 3000,
    }
}

/// The file's resolution in hundredths of ticks per beat.
///
/// For metrical timing this is exactly 100 times the declared ticks per
/// quarter note. For SMPTE timing it is the customary approximation
/// frame rate x sub-frame resolution, held in hundredths so that the 29.97
/// rate stays exact.
pub open spec fn spec_ticks_per_beat_centi(timing: TimingKind) -> u32 {
    match timing {
        TimingKind::Metrical { ticks_per_beat } => (100 * ticks_per_beat) as u32,
        TimingKind::Timecode { fps, subframe } => (frame_rate_centi(fps) * subframe) as u32,
    }
}

/// Computes the resolution in hundredths of ticks per beat.
pub fn ticks_per_beat_centi(timing: &TimingKind) -> (r: u32)
    ensures
        r == spec_ticks_per_beat_centi(*timing),
{
    match *timing {
        TimingKind::Metrical { ticks_per_beat } => 100 * ticks_per_beat as u32,
        TimingKind::Timecode { fps, subframe } => {
            let fc: u32 = match fps {
                FrameRate::F24 => 2400,
                FrameRate::F25 => 2500,
                FrameRate::F29 => 2997,
                FrameRate::F30 => 3000,
            };
            fc * subframe as u32
        }
    }
}

} // verus!
