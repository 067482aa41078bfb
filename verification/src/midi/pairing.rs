//! The note pairer: a single pass over one track's events that matches
//! note-off events (or zero-velocity note-on events) against previously
//! opened note-on events and emits completed notes.
//!
//! The per-track state is a dense table with one slot per (pitch, channel)
//! pair; pitch and channel ranges are bounded, so the table has exactly
//! 128 * 16 slots and the pass allocates nothing else.

use vstd::prelude::*;

use crate::midi::events::EventKind;
use crate::midi::events::TimedEvent;
use crate::midi::events::valid_events;
use crate::midi::note::Note;
use crate::midi::tempo::MAX_TIME_UNITS;
use crate::midi::tempo::TempoEntry;
use crate::midi::tempo::TempoMap;
use crate::midi::tempo::lemma_units_at_bound;
use crate::midi::tempo::lemma_units_at_monotone;
use crate::midi::tempo::spec_units_at;
use crate::midi::tempo::tick_after;

verus! {

/// Number of slots in the active-note table: one per (pitch, channel) pair.
pub const ACTIVE_SLOTS: usize = 2048;

/// A note that has been opened by a note-on event and not yet closed.
#[derive(Clone, Copy, Debug, PartialEq, Eq, Structural)]
pub struct ActiveNote {
    /// Absolute tick of the opening note-on.
    pub start_tick: u64,
    /// Velocity of the opening note-on.
    pub velocity: u8,
}

/// The slot of the active-note table that serves a (pitch, channel) pair.
pub open spec fn slot_index(pitch: u8, channel: u8) -> int {
    pitch * 16 + channel
}

/// The empty active-note table.
pub open spec fn init_slots() -> Seq<Option<ActiveNote>> {
    Seq::new(ACTIVE_SLOTS as nat, |i: int| None)
}

/// The fallback length, in time units, given to notes still open at the end
/// of the track: a tenth of a second.
pub open spec fn fallback_units(tpb_centi: u32) -> int {
    1000 * tpb_centi
}

/// Whether a closed note is long enough to keep: its length in time units,
/// scaled to microseconds, must reach the configured minimum. Stated exactly:
/// `d` units make `d * 100 / (tpb_centi * 1_000_000)` seconds.
pub open spec fn long_enough(d: int, tpb_centi: u32, min_duration_micros: u64) -> bool {
    d * 100 >= min_duration_micros * tpb_centi
}

/// The note emitted when the active entry `a` for (pitch, channel) is closed
/// at tick `tick`: none if the note falls below the minimum length.
pub open spec fn close_emits(
    entries: Seq<TempoEntry>,
    tpb_centi: u32,
    min_duration_micros: u64,
    pitch: u8,
    channel: u8,
    a: ActiveNote,
    tick: u64,
) -> Seq<Note> {
    let s = spec_units_at(entries, a.start_tick);
    let e = spec_units_at(entries, tick);
    let d = e - s;
    if long_enough(d, tpb_centi, min_duration_micros) {
        seq![
            Note {
                pitch,
                velocity: a.velocity,
                start_time: s as u128,
                duration: d as u128,
                channel,
            },
        ]
    } else {
        Seq::empty()
    }
}

/// One step of the pairing state machine, for a single event at absolute
/// tick `tick`: a note-on with positive velocity opens (or overwrites) the
/// slot; a note-off, or a note-on with velocity zero, closes it, emitting
/// the completed note if it is long enough; an orphaned close and every
/// other event kind change nothing.
pub open spec fn pair_step(
    entries: Seq<TempoEntry>,
    tpb_centi: u32,
    min_duration_micros: u64,
    slots: Seq<Option<ActiveNote>>,
    notes: Seq<Note>,
    tick: u64,
    kind: EventKind,
) -> (Seq<Option<ActiveNote>>, Seq<Note>) {
    match kind {
        EventKind::NoteOn { channel, pitch, velocity } => {
            if velocity > 0 {
                (
                    slots.update(
                        slot_index(pitch, channel),
                        Some(ActiveNote { start_tick: tick, velocity }),
                    ),
                    notes,
                )
            } else {
                pair_close(entries, tpb_centi, min_duration_micros, slots, notes, tick, pitch, channel)
            }
        }
        EventKind::NoteOff { channel, pitch } => {
            pair_close(entries, tpb_centi, min_duration_micros, slots, notes, tick, pitch, channel)
        }
        _ => (slots, notes),
    }
}

/// The closing transition shared by note-off and zero-velocity note-on.
pub open spec fn pair_close(
    entries: Seq<TempoEntry>,
    tpb_centi: u32,
    min_duration_micros: u64,
    slots: Seq<Option<ActiveNote>>,
    notes: Seq<Note>,
    tick: u64,
    pitch: u8,
    channel: u8,
) -> (Seq<Option<ActiveNote>>, Seq<Note>) {
    match slots[slot_index(pitch, channel)] {
        Some(a) => (
            slots.update(slot_index(pitch, channel), None),
            notes + close_emits(entries, tpb_centi, min_duration_micros, pitch, channel, a, tick),
        ),
        None => (slots, notes),
    }
}

/// The pairing state after the first `n` events of a track.
pub open spec fn pair_events(
    entries: Seq<TempoEntry>,
    tpb_centi: u32,
    min_duration_micros: u64,
    events: Seq<TimedEvent>,
    n: int,
) -> (Seq<Option<ActiveNote>>, Seq<Note>)
    decreases n,
{
    if n <= 0 {
        (init_slots(), Seq::empty())
    } else {
        let (slots, notes) = pair_events(entries, tpb_centi, min_duration_micros, events, n - 1);
        pair_step(
            entries,
            tpb_centi,
            min_duration_micros,
            slots,
            notes,
            tick_after(events, n),
            events[n - 1].kind,
        )
    }
}

/// The notes flushed from slots `0 .. upto` still active at the end of the
/// track, in slot order, each with the fallback length.
pub open spec fn flush_notes(
    entries: Seq<TempoEntry>,
    tpb_centi: u32,
    slots: Seq<Option<ActiveNote>>,
    upto: int,
) -> Seq<Note>
    decreases upto,
{
    if upto <= 0 {
        Seq::empty()
    } else {
        flush_notes(entries, tpb_centi, slots, upto - 1) + match slots[upto - 1] {
            Some(a) => seq![
                Note {
                    pitch: ((upto - 1) / 16) as u8,
                    velocity: a.velocity,
                    start_time: spec_units_at(entries, a.start_tick) as u128,
                    duration: fallback_units(tpb_centi) as u128,
                    channel: ((upto - 1) % 16) as u8,
                },
            ],
            None => Seq::empty(),
        }
    }
}

/// Everything one track contributes: the notes closed during the pass, in
/// closing order, followed by the still-open notes flushed in slot order.
pub open spec fn spec_pair_track(
    events: Seq<TimedEvent>,
    entries: Seq<TempoEntry>,
    tpb_centi: u32,
    min_duration_micros: u64,
) -> Seq<Note> {
    let (slots, notes) = pair_events(entries, tpb_centi, min_duration_micros, events, events.len() as int);
    notes + flush_notes(entries, tpb_centi, slots, ACTIVE_SLOTS as int)
}

/// Every open slot was opened at or before tick `tick`, by a note-on whose
/// velocity the MIDI wire format could encode.
pub open spec fn slots_opened_by(slots: Seq<Option<ActiveNote>>, tick: u64) -> bool {
    forall|k: int| 0 <= k < slots.len() ==> match #[trigger] slots[k] {
        Some(a) => a.start_tick <= tick && a.velocity < 128,
        None => true,
    }
}

/// All notes in a sequence are well formed.
pub open spec fn notes_wf(notes: Seq<Note>) -> bool {
    forall|k: int| 0 <= k < notes.len() ==> (#[trigger] notes[k]).wf()
}

/// Walks one track's events in tick order and pairs note-on events with
/// their closing events against the track's tempo map; notes shorter than
/// the minimum are dropped, and notes never closed are flushed with the
/// fallback length. The result is exactly the pairing state machine's
/// output, and every returned note is well formed.
pub fn pair_track(
    events: &Vec<TimedEvent>,
    map: &TempoMap,
    tpb_centi: u32,
    min_duration_micros: u64,
) -> (notes: Vec<Note>)
    requires
        map.wf(),
        valid_events(events@),
    ensures
        notes@ == spec_pair_track(events@, map@, tpb_centi, min_duration_micros),
        notes_wf(notes@),
{
    let mut slots: Vec<Option<ActiveNote>> = Vec::new();
    let mut k: usize = 0;
    while k < ACTIVE_SLOTS
        invariant
            0 <= k <= ACTIVE_SLOTS,
            slots@.len() == k,
            forall|j: int| 0 <= j < k ==> #[trigger] slots@[j] is None,
        decreases ACTIVE_SLOTS - k,
    {
        slots.push(None);
        k = k + 1;
    }
    proof {
        assert(slots@ =~= init_slots());
    }
    let mut notes: Vec<Note> = Vec::new();
    let mut tick: u64 = 0;
    let mut i: usize = 0;
    while i < events.len()
        invariant
            map.wf(),
            valid_events(events@),
            0 <= i <= events@.len(),
            tick == tick_after(events@, i as int),
            slots@.len() == ACTIVE_SLOTS,
            (slots@, notes@) == pair_events(map@, tpb_centi, min_duration_micros, events@, i as int),
            slots_opened_by(slots@, tick),
            notes_wf(notes@),
        decreases events@.len() - i,
    {
        let ev = events[i];
        let delta64: u64 = ev.delta as u64;
        if delta64 > u64::MAX - tick {
            tick = u64::MAX;
        } else {
            tick = tick + delta64;
        }
        assert(tick == tick_after(events@, i + 1));
        match ev.kind {
            EventKind::NoteOn { channel, pitch, velocity } => {
                if velocity > 0 {
                    let idx: usize = pitch as usize * 16 + channel as usize;
                    slots[idx] = Some(ActiveNote { start_tick: tick, velocity });
                } else {
                    close_key(&mut slots, &mut notes, map, tpb_centi, min_duration_micros, pitch, channel, tick);
                }
            }
            EventKind::NoteOff { channel, pitch } => {
                close_key(&mut slots, &mut notes, map, tpb_centi, min_duration_micros, pitch, channel, tick);
            }
            _ => {}
        }
        i = i + 1;
    }
    let ghost closed_notes = notes@;
    let ghost final_slots = slots@;
    let mut s: usize = 0;
    while s < ACTIVE_SLOTS
        invariant
            map.wf(),
            0 <= s <= ACTIVE_SLOTS,
            slots@ == final_slots,
            slots@.len() == ACTIVE_SLOTS,
            slots_opened_by(final_slots, tick),
            notes@ == closed_notes + flush_notes(map@, tpb_centi, final_slots, s as int),
            notes_wf(notes@),
        decreases ACTIVE_SLOTS - s,
    {
        match slots[s] {
            Some(a) => {
                let start_units: u128 = map.ticks_to_units(a.start_tick);
                let fallback: u128 = 1000 * (tpb_centi as u128);
                let pitch: u8 = (s / 16) as u8;
                let channel: u8 = (s % 16) as u8;
                proof {
                    lemma_units_at_bound(map@, a.start_tick);
                    assert(fallback <= MAX_TIME_UNITS);
                }
                notes.push(Note {
                    pitch,
                    velocity: a.velocity,
                    start_time: start_units,
                    duration: fallback,
                    channel,
                });
            }
            None => {}
        }
        s = s + 1;
    }
    notes
}

/// The closing transition: removes the active entry for (pitch, channel), if
/// any, and emits the completed note when it is long enough.
fn close_key(
    slots: &mut Vec<Option<ActiveNote>>,
    notes: &mut Vec<Note>,
    map: &TempoMap,
    tpb_centi: u32,
    min_duration_micros: u64,
    pitch: u8,
    channel: u8,
    tick: u64,
)
    requires
        map.wf(),
        pitch < 128,
        channel < 16,
        old(slots)@.len() == ACTIVE_SLOTS,
        slots_opened_by(old(slots)@, tick),
        notes_wf(old(notes)@),
    ensures
        (final(slots)@, final(notes)@) == pair_close(
            map@,
            tpb_centi,
            min_duration_micros,
            old(slots)@,
            old(notes)@,
            tick,
            pitch,
            channel,
        ),
        final(slots)@.len() == ACTIVE_SLOTS,
        slots_opened_by(final(slots)@, tick),
        notes_wf(final(notes)@),
{
    let idx: usize = pitch as usize * 16 + channel as usize;
    match slots[idx] {
        Some(a) => {
            let start_units: u128 = map.ticks_to_units(a.start_tick);
            let end_units: u128 = map.ticks_to_units(tick);
            proof {
                lemma_units_at_monotone(map@, a.start_tick, tick);
                lemma_units_at_bound(map@, a.start_tick);
                lemma_units_at_bound(map@, tick);
                assert(min_duration_micros as int * tpb_centi as int
                    <= 0xFFFF_FFFF_FFFF_FFFF * 0xFFFF_FFFF) by (nonlinear_arith)
                    requires
                        0 <= min_duration_micros <= 0xFFFF_FFFF_FFFF_FFFFu64,
                        0 <= tpb_centi <= 0xFFFF_FFFFu32,
                ;
            }
            let duration: u128 = end_units - start_units;
            if duration * 100 >= (min_duration_micros as u128) * (tpb_centi as u128) {
                notes.push(Note {
                    pitch,
                    velocity: a.velocity,
                    start_time: start_units,
                    duration,
                    channel,
                });
            }
            slots[idx] = None;
        }
        None => {}
    }
}

} // verus!
