//! Tests of the note pairer on directly constructed event lists, at a
//! resolution of 480 ticks per beat (48,000 hundredths).

use midi_rs::midi::events::EventKind;
use midi_rs::midi::events::TimedEvent;
use midi_rs::midi::pairing::pair_track;
use midi_rs::midi::tempo::TempoMap;

const TPB_CENTI: u32 = 48_000;
const MIN_MICROS: u64 = 1000;

fn on(delta: u32, channel: u8, pitch: u8, velocity: u8) -> TimedEvent {
    TimedEvent { delta, kind: EventKind::NoteOn { channel, pitch, velocity } }
}

fn off(delta: u32, channel: u8, pitch: u8) -> TimedEvent {
    TimedEvent { delta, kind: EventKind::NoteOff { channel, pitch } }
}

#[test]
fn pairs_one_note() {
    let events = vec![on(0, 0, 60, 100), off(480, 0, 60)];
    let map = TempoMap::build(&events);
    let notes = pair_track(&events, &map, TPB_CENTI, MIN_MICROS);
    assert_eq!(notes.len(), 1);
    assert_eq!(notes[0].pitch, 60);
    assert_eq!(notes[0].velocity, 100);
    assert_eq!(notes[0].start_time, 0);
    assert_eq!(notes[0].duration, 240_000_000);
}

#[test]
fn flushes_open_notes_in_slot_order() {
    let events = vec![on(0, 2, 80, 60), on(0, 1, 64, 70)];
    let map = TempoMap::build(&events);
    let notes = pair_track(&events, &map, TPB_CENTI, MIN_MICROS);
    assert_eq!(notes.len(), 2);
    // Slot order: lower pitch first, then lower channel.
    assert_eq!(notes[0].pitch, 64);
    assert_eq!(notes[0].channel, 1);
    assert_eq!(notes[1].pitch, 80);
    assert_eq!(notes[1].channel, 2);
    // Both get the fallback tenth of a second.
    assert_eq!(notes[0].duration, 48_000_000);
    assert_eq!(notes[1].duration, 48_000_000);
}

#[test]
fn same_pitch_on_other_channel_is_separate() {
    let events = vec![
        on(0, 0, 60, 100),
        on(0, 1, 60, 90),
        off(240, 1, 60),
        off(240, 0, 60),
    ];
    let map = TempoMap::build(&events);
    let notes = pair_track(&events, &map, TPB_CENTI, MIN_MICROS);
    assert_eq!(notes.len(), 2);
    assert_eq!(notes[0].channel, 1);
    assert_eq!(notes[0].duration, 120_000_000);
    assert_eq!(notes[1].channel, 0);
    assert_eq!(notes[1].duration, 240_000_000);
}

#[test]
fn highest_pitch_and_channel_use_the_last_slot() {
    let events = vec![on(0, 15, 127, 1), off(480, 15, 127)];
    let map = TempoMap::build(&events);
    let notes = pair_track(&events, &map, TPB_CENTI, MIN_MICROS);
    assert_eq!(notes.len(), 1);
    assert_eq!(notes[0].pitch, 127);
    assert_eq!(notes[0].channel, 15);
    assert_eq!(notes[0].velocity, 1);
    assert_eq!(notes[0].duration, 240_000_000);
}

#[test]
fn minimum_duration_filter_is_exact() {
    // 1 tick at the default tempo and 480 ticks per beat is 1/960 s:
    // just above the 1 ms minimum, so it stays; with a raised minimum
    // of 2 ms it is dropped.
    let events = vec![on(0, 0, 60, 100), off(1, 0, 60)];
    let map = TempoMap::build(&events);
    let kept = pair_track(&events, &map, TPB_CENTI, MIN_MICROS);
    assert_eq!(kept.len(), 1);
    assert_eq!(kept[0].duration, 500_000);
    let dropped = pair_track(&events, &map, TPB_CENTI, 2000);
    assert_eq!(dropped.len(), 0);
}
