//! The trusted boundary to the outside Standard-MIDI-File decoder.
//!
//! The `midly` crate does the byte-level decoding; everything it hands back
//! is immediately reduced to the plain-value event model of
//! [`crate::midi::events`]. What a decoded file holds is given two spec-level
//! names — its timing declaration and its tracks' events — and one name ties
//! both to the raw bytes, so that the parser's contract can speak of the
//! decode result as a function of the input alone.

use vstd::prelude::*;

use midly::MetaMessage;
use midly::MidiMessage;
use midly::TrackEventKind;

use crate::midi::events::EventKind;
use crate::midi::events::FrameRate;
use crate::midi::events::TimedEvent;
use crate::midi::events::TimingKind;
use crate::midi::events::valid_event;

verus! {

#[verifier::external_type_specification]
#[verifier::external_body]
pub struct ExSmf<'a>(midly::Smf<'a>);

#[verifier::external_type_specification]
#[verifier::external_body]
pub struct ExMidlyError(midly::Error);

/// The timing declaration of a decoded file's header.
pub uninterp spec fn smf_timing(smf: midly::Smf<'static>) -> TimingKind;

/// The events held by a decoded file: one sequence per track, in file
/// order, each event reduced to the plain-value model.
pub uninterp spec fn smf_tracks(smf: midly::Smf<'static>) -> Seq<Seq<TimedEvent>>;

/// What decoding a byte string yields: `None` when the bytes are not a
/// well-formed Standard MIDI File, otherwise the header timing and the
/// tracks' events. Decoding depends on the bytes alone.
pub uninterp spec fn smf_decode(data: Seq<u8>) -> Option<(TimingKind, Seq<Seq<TimedEvent>>)>;

/// Relies on `midly::Smf::parse`: it decodes a Standard MIDI File from raw
/// bytes, deterministically, failing exactly on bytes that are not a
/// well-formed file; `make_static` only drops the borrow of the input.
#[verifier::external_body]
pub(crate) fn parse_smf(data: &[u8]) -> (r: Result<midly::Smf<'static>, midly::Error>)
    ensures
        match r {
            Ok(smf) => smf_decode(data@) == Some((smf_timing(smf), smf_tracks(smf))),
            Err(_) => smf_decode(data@) is None,
        },
{
    match midly::Smf::parse(data) {
        Ok(smf) => Ok(smf.make_static()),
        Err(e) => Err(e),
    }
}

/// Relies on the `header.timing` field of `midly::Smf`: the four SMPTE
/// rates and the metrical resolution are carried over one for one.
#[verifier::external_body]
pub(crate) fn timing_of(smf: &midly::Smf<'static>) -> (tk: TimingKind)
    ensures
        tk == smf_timing(*smf),
{
    match smf.header.timing {
        midly::Timing::Metrical(t) => TimingKind::Metrical { ticks_per_beat: t.as_int() },
        midly::Timing::Timecode(fps, subframe) => TimingKind::Timecode {
            fps: match fps {
                midly::Fps::Fps24 => FrameRate::F24,
                midly::Fps::Fps25 => FrameRate::F25,
                midly::Fps::Fps29 => FrameRate::F29,
                midly::Fps::Fps30 => FrameRate::F30,
            },
            subframe,
        },
    }
}

/// Relies on the `tracks` field of `midly::Smf` being a vector of tracks.
#[verifier::external_body]
pub(crate) fn track_count(smf: &midly::Smf<'static>) -> (n: usize)
    ensures
        n == smf_tracks(*smf).len(),
{
    smf.tracks.len()
}

/// Relies on each track of `midly::Smf` being a vector of events.
#[verifier::external_body]
pub(crate) fn track_len(smf: &midly::Smf<'static>, t: usize) -> (n: usize)
    requires
        t < smf_tracks(*smf).len(),
    ensures
        n == smf_tracks(*smf)[t as int].len(),
{
    smf.tracks[t].len()
}

/// Relies on `midly::TrackEvent`: its delta time is a 28-bit varint, note
/// events carry a 4-bit channel and 7-bit key and velocity, and the tempo
/// meta-event carries a 24-bit microseconds-per-beat value; each variant is
/// carried over one for one and everything else becomes `Other`.
#[verifier::external_body]
pub(crate) fn event_at(smf: &midly::Smf<'static>, t: usize, i: usize) -> (e: TimedEvent)
    requires
        t < smf_tracks(*smf).len(),
        i < smf_tracks(*smf)[t as int].len(),
    ensures
        e == smf_tracks(*smf)[t as int][i as int],
        valid_event(e),
{
    let ev = &smf.tracks[t][i];
    let kind = match ev.kind {
        TrackEventKind::Midi { channel, message } => match message {
            MidiMessage::NoteOn { key, vel } => EventKind::NoteOn { channel: channel.as_int(), pitch: key.as_int(), velocity: vel.as_int() },
            MidiMessage::NoteOff { key, .. } => EventKind::NoteOff { channel: channel.as_int(), pitch: key.as_int() },
            _ => EventKind::Other,
        },
        TrackEventKind::Meta(MetaMessage::Tempo(micros)) => EventKind::Tempo { micros_per_beat: micros.as_int() },
        _ => EventKind::Other,
    };
    TimedEvent { delta: ev.delta.as_int(), kind }
}

/// Relies on the `Display` impl of `midly::Error` for a human-readable
/// account of a decode failure; nothing is promised of the text.
#[verifier::external_body]
pub(crate) fn decode_error_message(e: &midly::Error) -> String {
    e.to_string()
}

} // verus!
