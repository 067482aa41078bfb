//! End-to-end tests of the parser on hand-assembled Standard MIDI Files.

use midi_rs::midi::MidiParser;
use midi_rs::midi::Note;
use midi_rs::midi::ParseError;

/// Appends a MIDI variable-length quantity.
fn push_varint(out: &mut Vec<u8>, mut value: u32) {
    let mut bytes = vec![(value & 0x7F) as u8];
    value >>= 7;
    while value > 0 {
        bytes.push((value & 0x7F) as u8 | 0x80);
        value >>= 7;
    }
    bytes.reverse();
    out.extend_from_slice(&bytes);
}

/// A header chunk with metrical timing.
fn header_chunk(format: u16, n_tracks: u16, ticks_per_beat: u16) -> Vec<u8> {
    let mut out = b"MThd".to_vec();
    out.extend_from_slice(&6u32.to_be_bytes());
    out.extend_from_slice(&format.to_be_bytes());
    out.extend_from_slice(&n_tracks.to_be_bytes());
    out.extend_from_slice(&ticks_per_beat.to_be_bytes());
    out
}

/// A track chunk holding the given event bytes plus an end-of-track.
fn track_chunk(events: &[u8]) -> Vec<u8> {
    let mut body = events.to_vec();
    body.extend_from_slice(&[0x00, 0xFF, 0x2F, 0x00]);
    let mut out = b"MTrk".to_vec();
    out.extend_from_slice(&(body.len() as u32).to_be_bytes());
    out.extend_from_slice(&body);
    out
}

fn note_on(out: &mut Vec<u8>, delta: u32, channel: u8, key: u8, vel: u8) {
    push_varint(out, delta);
    out.extend_from_slice(&[0x90 | channel, key, vel]);
}

fn note_off(out: &mut Vec<u8>, delta: u32, channel: u8, key: u8) {
    push_varint(out, delta);
    out.extend_from_slice(&[0x80 | channel, key, 0x40]);
}

fn set_tempo(out: &mut Vec<u8>, delta: u32, micros_per_beat: u32) {
    push_varint(out, delta);
    let b = micros_per_beat.to_be_bytes();
    out.extend_from_slice(&[0xFF, 0x51, 0x03, b[1], b[2], b[3]]);
}

/// Seconds represented by a time-unit value at the given resolution.
fn units_to_seconds(units: u128, units_per_second: u64) -> f64 {
    units as f64 / units_per_second as f64
}

#[test]
fn test_parser_creation() {
    let parser = MidiParser::new();
    assert_eq!(parser.min_duration_micros, 1000);
}

#[test]
fn test_parser_with_duration() {
    let parser = MidiParser::new().with_min_duration(10_000);
    assert_eq!(parser.min_duration_micros, 10_000);
}

#[test]
fn single_note_at_default_tempo() {
    let mut events = Vec::new();
    note_on(&mut events, 0, 0, 60, 100);
    note_off(&mut events, 480, 0, 60);
    let mut data = header_chunk(0, 1, 480);
    data.extend_from_slice(&track_chunk(&events));

    let out = MidiParser::new().parse_bytes(&data).unwrap();
    assert_eq!(out.units_per_second, 480_000_000);
    assert_eq!(out.notes.len(), 1);
    let n = &out.notes[0];
    assert_eq!(n.pitch, 60);
    assert_eq!(n.velocity, 100);
    assert_eq!(n.channel, 0);
    assert_eq!(n.start_time, 0);
    assert_eq!(n.duration, 240_000_000);
    assert!((units_to_seconds(n.duration, out.units_per_second) - 0.5).abs() < 1e-4);
}

#[test]
fn unmatched_note_on_gets_fallback_duration() {
    let mut events = Vec::new();
    note_on(&mut events, 1000, 0, 72, 64);
    let mut data = header_chunk(0, 1, 480);
    data.extend_from_slice(&track_chunk(&events));

    let out = MidiParser::new().parse_bytes(&data).unwrap();
    assert_eq!(out.notes.len(), 1);
    let n = &out.notes[0];
    assert_eq!(n.pitch, 72);
    assert_eq!(n.start_time, 500_000_000);
    assert_eq!(n.duration, 48_000_000);
    assert!(n.duration > 0);
    let secs = units_to_seconds(n.duration, out.units_per_second);
    assert!((secs - 0.1).abs() < 1e-12);
}

#[test]
fn too_short_note_is_dropped() {
    // At 1000 ticks per beat and the default tempo, one tick lasts half a
    // millisecond: below the one-millisecond default minimum.
    let mut events = Vec::new();
    note_on(&mut events, 0, 0, 60, 100);
    note_off(&mut events, 1, 0, 60);
    let mut data = header_chunk(0, 1, 1000);
    data.extend_from_slice(&track_chunk(&events));

    let out = MidiParser::new().parse_bytes(&data).unwrap();
    let secs = units_to_seconds(500_000, out.units_per_second);
    assert!((secs - 0.0005).abs() < 1e-12);
    assert_eq!(out.notes.len(), 0);
}

#[test]
fn zero_velocity_note_on_closes_the_note() {
    let mut events = Vec::new();
    note_on(&mut events, 0, 3, 64, 90);
    note_on(&mut events, 240, 3, 64, 0);
    let mut data = header_chunk(0, 1, 480);
    data.extend_from_slice(&track_chunk(&events));

    let out = MidiParser::new().parse_bytes(&data).unwrap();
    assert_eq!(out.notes.len(), 1);
    let n = &out.notes[0];
    assert_eq!(n.channel, 3);
    assert_eq!(n.velocity, 90);
    assert_eq!(n.duration, 120_000_000);
}

#[test]
fn orphaned_note_off_is_discarded() {
    let mut events = Vec::new();
    note_off(&mut events, 0, 0, 60);
    note_off(&mut events, 100, 5, 70);
    let mut data = header_chunk(0, 1, 480);
    data.extend_from_slice(&track_chunk(&events));

    let out = MidiParser::new().parse_bytes(&data).unwrap();
    assert_eq!(out.notes.len(), 0);
}

#[test]
fn repeated_note_on_keeps_the_last() {
    let mut events = Vec::new();
    note_on(&mut events, 0, 0, 60, 50);
    note_on(&mut events, 100, 0, 60, 99);
    note_off(&mut events, 100, 0, 60);
    let mut data = header_chunk(0, 1, 480);
    data.extend_from_slice(&track_chunk(&events));

    let out = MidiParser::new().parse_bytes(&data).unwrap();
    assert_eq!(out.notes.len(), 1);
    let n = &out.notes[0];
    assert_eq!(n.velocity, 99);
    assert_eq!(n.start_time, 100u128 * 500_000);
    assert_eq!(n.duration, 100u128 * 500_000);
}

#[test]
fn tempo_change_splits_the_clock_integral() {
    // 480 ticks per beat; the first 240 ticks at the default 500,000 us per
    // beat, the next 240 at 250,000: 0.25 s + 0.125 s.
    let mut events = Vec::new();
    note_on(&mut events, 0, 0, 60, 100);
    set_tempo(&mut events, 240, 250_000);
    note_off(&mut events, 240, 0, 60);
    let mut data = header_chunk(0, 1, 480);
    data.extend_from_slice(&track_chunk(&events));

    let out = MidiParser::new().parse_bytes(&data).unwrap();
    assert_eq!(out.notes.len(), 1);
    let n = &out.notes[0];
    assert_eq!(n.duration, 240u128 * 500_000 + 240u128 * 250_000);
    let secs = units_to_seconds(n.duration, out.units_per_second);
    assert!((secs - 0.375).abs() < 1e-12);
}

#[test]
fn merged_output_is_sorted_by_start_time() {
    let mut t1 = Vec::new();
    note_on(&mut t1, 480, 0, 60, 100);
    note_off(&mut t1, 480, 0, 60);
    note_on(&mut t1, 0, 0, 62, 100);
    note_off(&mut t1, 480, 0, 62);
    let mut t2 = Vec::new();
    note_on(&mut t2, 0, 1, 70, 100);
    note_off(&mut t2, 240, 1, 70);
    note_on(&mut t2, 1200, 1, 71, 100);
    note_off(&mut t2, 480, 1, 71);
    let mut data = header_chunk(1, 2, 480);
    data.extend_from_slice(&track_chunk(&t1));
    data.extend_from_slice(&track_chunk(&t2));

    let out = MidiParser::new().parse_bytes(&data).unwrap();
    assert_eq!(out.notes.len(), 4);
    for w in out.notes.windows(2) {
        assert!(w[0].start_time <= w[1].start_time);
    }
}

#[test]
fn ties_keep_track_order() {
    // Both tracks start a note at tick 0; the first track's note must come
    // first in the merged list.
    let mut t1 = Vec::new();
    note_on(&mut t1, 0, 0, 60, 100);
    note_off(&mut t1, 480, 0, 60);
    let mut t2 = Vec::new();
    note_on(&mut t2, 0, 1, 70, 100);
    note_off(&mut t2, 240, 1, 70);
    let mut data = header_chunk(1, 2, 480);
    data.extend_from_slice(&track_chunk(&t1));
    data.extend_from_slice(&track_chunk(&t2));

    let out = MidiParser::new().parse_bytes(&data).unwrap();
    assert_eq!(out.notes.len(), 2);
    assert_eq!(out.notes[0].pitch, 60);
    assert_eq!(out.notes[1].pitch, 70);
}

#[test]
fn smpte_timing_uses_frames_times_subframes() {
    // Division with the high bit set: negated frames per second (25), then
    // the sub-frame resolution (40), for 1000 ticks per second.
    let mut events = Vec::new();
    note_on(&mut events, 0, 0, 60, 100);
    note_off(&mut events, 1000, 0, 60);
    let division = ((256 - 25) as u16) << 8 | 40;
    let mut data = header_chunk(0, 1, division);
    data.extend_from_slice(&track_chunk(&events));

    let out = MidiParser::new().parse_bytes(&data).unwrap();
    assert_eq!(out.units_per_second, 1_000_000_000);
    assert_eq!(out.notes.len(), 1);
    // 1000 ticks at the default 500,000 us per beat.
    assert_eq!(out.notes[0].duration, 500_000_000);
    let secs = units_to_seconds(out.notes[0].duration, out.units_per_second);
    assert!((secs - 0.5).abs() < 1e-12);
}

#[test]
fn tempo_maps_are_per_track() {
    // A tempo change recorded in the first track does not reach the second:
    // every track is timed against its own tempo map.
    let mut t1 = Vec::new();
    set_tempo(&mut t1, 0, 250_000);
    note_on(&mut t1, 0, 0, 60, 100);
    note_off(&mut t1, 480, 0, 60);
    let mut t2 = Vec::new();
    note_on(&mut t2, 0, 1, 70, 100);
    note_off(&mut t2, 480, 1, 70);
    let mut data = header_chunk(1, 2, 480);
    data.extend_from_slice(&track_chunk(&t1));
    data.extend_from_slice(&track_chunk(&t2));

    let out = MidiParser::new().parse_bytes(&data).unwrap();
    assert_eq!(out.notes.len(), 2);
    let fast = out.notes.iter().find(|n| n.pitch == 60).unwrap();
    let slow = out.notes.iter().find(|n| n.pitch == 70).unwrap();
    assert_eq!(fast.duration, 480u128 * 250_000);
    assert_eq!(slow.duration, 480u128 * 500_000);
}

#[test]
fn garbage_bytes_are_a_midi_error() {
    let r = MidiParser::new().parse_bytes(b"this is not a midi file");
    assert!(matches!(r, Err(ParseError::MidiError(_))));
}

#[test]
fn empty_input_is_a_midi_error() {
    let r = MidiParser::new().parse_bytes(&[]);
    assert!(matches!(r, Err(ParseError::MidiError(_))));
}

#[test]
fn get_duration_is_the_largest_end_time() {
    let notes = vec![
        Note::new(60, 100, 0, 200, 0),
        Note::new(61, 100, 500, 100, 0),
        Note::new(62, 100, 100, 50, 0),
    ];
    assert_eq!(MidiParser::get_duration(&notes), 600);
    assert_eq!(MidiParser::get_duration(&Vec::new()), 0);
}
