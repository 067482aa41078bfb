//! The MIDI file parser: decodes the container through the trusted boundary,
//! builds each track's tempo map, pairs its note events, and merges all
//! tracks into one note list sorted by start time.

use vstd::prelude::*;

use crate::midi::events::TimedEvent;
use crate::midi::events::TimingKind;
use crate::midi::events::spec_ticks_per_beat_centi;
use crate::midi::events::ticks_per_beat_centi;
use crate::midi::events::valid_events;
use crate::midi::note::Note;
use crate::midi::order::lemma_stable_sorted_sorted;
use crate::midi::order::lemma_stable_sorted_wf;
use crate::midi::order::sort_notes_by_start;
use crate::midi::order::sorted_by_start;
use crate::midi::order::stable_sorted;
use crate::midi::pairing::notes_wf;
use crate::midi::pairing::pair_track;
use crate::midi::pairing::spec_pair_track;
use crate::midi::smf::decode_error_message;
use crate::midi::smf::event_at;
use crate::midi::smf::parse_smf;
use crate::midi::smf::smf_decode;
use crate::midi::smf::timing_of;
use crate::midi::smf::track_count;
use crate::midi::smf::track_len;
use crate::midi::tempo::TempoMap;
use crate::midi::tempo::spec_tempo_map;

verus! {

/// The error outcome of a parse: the source was unreadable, the decoder
/// rejected the container structure, or the bytes are not recognizably a
/// Standard MIDI File at all. No partial note list accompanies an error.
#[derive(Debug)]
pub enum ParseError {
    IoError(String),
    MidiError(String),
    InvalidFile(String),
}

/// A successfully parsed file: the merged, sorted note list, and how many
/// time units make one second, so that a consumer can place the notes on a
/// real-time axis.
pub struct ParsedMidi {
    /// All notes of all tracks, ascending by start time.
    pub notes: Vec<Note>,
    /// Time units per second: the resolution in hundredths of ticks per
    /// beat times 10,000.
    pub units_per_second: u64,
}

/// The notes one track contributes, paired against its own tempo map.
pub open spec fn track_notes(track: Seq<TimedEvent>, tpb_centi: u32, min_duration_micros: u64) -> Seq<Note> {
    spec_pair_track(track, spec_tempo_map(track), tpb_centi, min_duration_micros)
}

/// The concatenation of the first `n` tracks' notes, in track order.
pub open spec fn merged_notes(
    tracks: Seq<Seq<TimedEvent>>,
    tpb_centi: u32,
    min_duration_micros: u64,
    n: int,
) -> Seq<Note>
    decreases n,
{
    if n <= 0 {
        Seq::empty()
    } else {
        merged_notes(tracks, tpb_centi, min_duration_micros, n - 1)
            + track_notes(tracks[n - 1], tpb_centi, min_duration_micros)
    }
}

/// Everything a successful parse returns: every track paired independently,
/// the results concatenated in track order and stable-sorted by start time.
pub open spec fn spec_parse_output(
    timing: TimingKind,
    tracks: Seq<Seq<TimedEvent>>,
    min_duration_micros: u64,
) -> Seq<Note> {
    stable_sorted(
        merged_notes(
            tracks,
            spec_ticks_per_beat_centi(timing),
            min_duration_micros,
            tracks.len() as int,
        ),
    )
}

/// The largest end time over a note list, zero when the list is empty.
pub open spec fn spec_total_duration(notes: Seq<Note>, n: int) -> int
    decreases n,
{
    if n <= 0 {
        0
    } else {
        let prev = spec_total_duration(notes, n - 1);
        let end = notes[n - 1].start_time + notes[n - 1].duration;
        if end > prev {
            end
        } else {
            prev
        }
    }
}

/// MIDI file parser; notes shorter than the configured minimum are dropped.
pub struct MidiParser {
    /// Minimum note length in microseconds; closed notes shorter than this
    /// are filtered out.
    pub min_duration_micros: u64,
}

impl MidiParser {
    /// A parser with the default minimum note length of one millisecond.
    pub fn new() -> (p: MidiParser)
        ensures
            p.min_duration_micros == 1000,
    {
        MidiParser { min_duration_micros: 1000 }
    }

    /// Replaces the minimum note length.
    pub fn with_min_duration(self, min_duration_micros: u64) -> (p: MidiParser)
        ensures
            p.min_duration_micros == min_duration_micros,
    {
        MidiParser { min_duration_micros }
    }

    /// Parses MIDI data from raw bytes.
    ///
    /// Succeeds exactly when the decoder accepts the bytes as a Standard
    /// MIDI File, and then returns precisely the merged, stable-sorted note
    /// list of every track, each track paired against its own tempo map;
    /// otherwise reports the decoder's failure. Never a partial result.
    pub fn parse_bytes(&self, data: &[u8]) -> (r: Result<ParsedMidi, ParseError>)
        ensures
            match r {
                Ok(out) => {
                    &&& smf_decode(data@) matches Some(d)
                        && out.notes@ == spec_parse_output(d.0, d.1, self.min_duration_micros)
                        && out.units_per_second == spec_ticks_per_beat_centi(d.0) * 10_000
                    &&& sorted_by_start(out.notes@)
                    &&& notes_wf(out.notes@)
                }
                Err(e) => smf_decode(data@) is None && e is MidiError,
            },
    {
        let smf = match parse_smf(data) {
            Ok(smf) => smf,
            Err(e) => {
                return Err(ParseError::MidiError(decode_error_message(&e)));
            }
        };
        let ghost tracks = crate::midi::smf::smf_tracks(smf);
        let timing = timing_of(&smf);
        let tpb_centi: u32 = ticks_per_beat_centi(&timing);
        let n_tracks: usize = track_count(&smf);
        let mut all_notes: Vec<Note> = Vec::new();
        let mut t: usize = 0;
        while t < n_tracks
            invariant
                n_tracks == tracks.len(),
                0 <= t <= n_tracks,
                tracks == crate::midi::smf::smf_tracks(smf),
                timing == crate::midi::smf::smf_timing(smf),
                tpb_centi == spec_ticks_per_beat_centi(timing),
                all_notes@ == merged_notes(tracks, tpb_centi, self.min_duration_micros, t as int),
                notes_wf(all_notes@),
            decreases n_tracks - t,
        {
            let len: usize = track_len(&smf, t);
            let mut track_events: Vec<TimedEvent> = Vec::new();
            let mut i: usize = 0;
            while i < len
                invariant
                    tracks == crate::midi::smf::smf_tracks(smf),
                    t < tracks.len(),
                    len == tracks[t as int].len(),
                    0 <= i <= len,
                    track_events@ == tracks[t as int].take(i as int),
                    valid_events(track_events@),
                decreases len - i,
            {
                let e = event_at(&smf, t, i);
                track_events.push(e);
                proof {
                    assert(track_events@ =~= tracks[t as int].take(i + 1));
                }
                i = i + 1;
            }
            proof {
                assert(track_events@ =~= tracks[t as int]);
            }
            let map = TempoMap::build(&track_events);
            let mut new_notes = pair_track(&track_events, &map, tpb_centi, self.min_duration_micros);
            all_notes.append(&mut new_notes);
            t = t + 1;
        }
        proof {
            lemma_stable_sorted_sorted(all_notes@);
            lemma_stable_sorted_wf(all_notes@);
        }
        sort_notes_by_start(&mut all_notes);
        Ok(ParsedMidi { notes: all_notes, units_per_second: (tpb_centi as u64) * 10_000 })
    }

    /// The total duration of a note list in time units: the largest end
    /// time over all notes, zero when there are none.
    pub fn get_duration(notes: &Vec<Note>) -> (d: u128)
        requires
            notes_wf(notes@),
        ensures
            d == spec_total_duration(notes@, notes@.len() as int),
    {
        let mut best: u128 = 0;
        let mut i: usize = 0;
        while i < notes.len()
            invariant
                notes_wf(notes@),
                0 <= i <= notes@.len(),
                best == spec_total_duration(notes@, i as int),
            decreases notes@.len() - i,
        {
            let end: u128 = notes[i].start_time + notes[i].duration;
            if end > best {
                best = end;
            }
            i = i + 1;
        }
        best
    }
}

impl Default for MidiParser {
    /// A parser with the default minimum note length.
    fn default() -> (p: MidiParser)
        ensures
            p.min_duration_micros == 1000,
    {
        MidiParser::new()
    }
}

} // verus!
