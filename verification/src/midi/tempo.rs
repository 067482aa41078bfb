//! Tempo map and tick clock.
//!
//! Elapsed time is measured in exact integer *time units*: one unit is one
//! tick-microsecond-per-beat, so a tick position `t` reached under a constant
//! tempo of `m` microseconds per beat accounts for `t * m` units. With a
//! resolution of `c` hundredths of ticks per beat, a value of `u` units means
//! `u * 100 / (c * 1_000_000)` seconds; the division is left to the caller so
//! that everything in here stays exact.

use vstd::prelude::*;

use crate::midi::events::EventKind;
use crate::midi::events::TimedEvent;

verus! {

/// The default tempo (120 beats per minute), in microseconds per beat,
/// assumed at tick 0 of every track.
pub const DEFAULT_TEMPO_MICROS: u32 = 500_000;

/// An upper bound on any time-unit value the clock can produce:
/// the largest tick position times the largest tempo.
pub const MAX_TIME_UNITS: u128 = 0xFFFF_FFFF_FFFF_FFFF * 0xFFFF_FFFF;

/// One tempo-change record: from tick `tick` onwards (until the next entry),
/// a beat lasts `micros_per_beat` microseconds.
#[derive(Clone, Copy, Debug, PartialEq, Eq, Structural)]
pub struct TempoEntry {
    pub tick: u64,
    pub micros_per_beat: u32,
}

/// Entry ticks are non-decreasing.
pub open spec fn tempo_sorted(entries: Seq<TempoEntry>) -> bool {
    forall|i: int, j: int|
        0 <= i <= j < entries.len() ==> #[trigger] entries[i].tick <= #[trigger] entries[j].tick
}

/// Every entry lies at or after tick `l`.
pub open spec fn tempo_from(entries: Seq<TempoEntry>, l: u64) -> bool {
    forall|i: int| 0 <= i < entries.len() ==> l <= #[trigger] entries[i].tick
}

/// Saturating 64-bit addition: absolute tick positions are accumulated with
/// it, so that arbitrarily long tracks stay well defined.
pub open spec fn sat_add_u64(a: u64, b: u64) -> u64 {
    if a + b > u64::MAX {
        u64::MAX
    } else {
        (a + b) as u64
    }
}

/// The absolute tick position reached after the first `n` events of a track.
pub open spec fn tick_after(events: Seq<TimedEvent>, n: int) -> u64
    decreases n,
{
    if n <= 0 {
        0
    } else {
        sat_add_u64(tick_after(events, n - 1), events[n - 1].delta as u64)
    }
}

/// The tempo entries contributed by the first `n` events of a track, in
/// arrival order; duplicates at one tick are all kept.
pub open spec fn tempo_entries_prefix(events: Seq<TimedEvent>, n: int) -> Seq<TempoEntry>
    decreases n,
{
    if n <= 0 {
        Seq::empty()
    } else {
        tempo_entries_prefix(events, n - 1) + match events[n - 1].kind {
            EventKind::Tempo { micros_per_beat } => seq![
                TempoEntry { tick: tick_after(events, n), micros_per_beat },
            ],
            _ => Seq::empty(),
        }
    }
}

/// The whole tempo map of a track: the implicit default entry at tick 0,
/// followed by every tempo event with its absolute tick.
pub open spec fn spec_tempo_map(events: Seq<TimedEvent>) -> Seq<TempoEntry> {
    seq![TempoEntry { tick: 0, micros_per_beat: DEFAULT_TEMPO_MICROS }]
        + tempo_entries_prefix(events, events.len() as int)
}

/// Time units elapsed from tick `last_tick` (where tempo `last_tempo` is in
/// force) up to tick `tick`, crossing the given later tempo entries: each
/// segment contributes its tick length times the tempo in force over it, and
/// the final segment is clipped at `tick`.
pub open spec fn units_from(entries: Seq<TempoEntry>, last_tick: u64, last_tempo: u32, tick: u64) -> int
    decreases entries.len(),
{
    if entries.len() == 0 || entries[0].tick > tick {
        (tick - last_tick) * last_tempo
    } else {
        (entries[0].tick - last_tick) * last_tempo
            + units_from(entries.skip(1), entries[0].tick, entries[0].micros_per_beat, tick)
    }
}

/// Time units elapsed from tick 0 to `tick` under the given tempo map.
pub open spec fn spec_units_at(entries: Seq<TempoEntry>, tick: u64) -> int {
    units_from(entries, 0, DEFAULT_TEMPO_MICROS, tick)
}

/// The clock starts at zero: tick 0 maps to 0 time units, under every tempo
/// map whatsoever.
pub proof fn lemma_units_at_zero(entries: Seq<TempoEntry>)
    ensures
        spec_units_at(entries, 0) == 0,
{
    lemma_units_from_zero(entries, DEFAULT_TEMPO_MICROS);
}

proof fn lemma_units_from_zero(entries: Seq<TempoEntry>, tempo: u32)
    ensures
        units_from(entries, 0, tempo, 0) == 0,
    decreases entries.len(),
{
    if entries.len() == 0 || entries[0].tick > 0 {
    } else {
        assert(entries[0].tick == 0);
        lemma_units_from_zero(entries.skip(1), entries[0].micros_per_beat);
    }
}

/// Under a single tempo entry at tick 0, the clock is exactly linear:
/// `tick` ticks account for `tick * micros_per_beat` time units.
pub proof fn lemma_units_at_constant_tempo(micros_per_beat: u32, tick: u64)
    ensures
        spec_units_at(
            seq![TempoEntry { tick: 0, micros_per_beat }],
            tick,
        ) == tick * micros_per_beat,
{
    let entries = seq![TempoEntry { tick: 0, micros_per_beat }];
    assert(entries[0].tick == 0);
    assert(entries.skip(1) =~= Seq::<TempoEntry>::empty());
    assert(units_from(entries.skip(1), 0, micros_per_beat, tick) == (tick - 0) * micros_per_beat);
    assert(spec_units_at(entries, tick)
        == (0 - 0) * DEFAULT_TEMPO_MICROS + units_from(entries.skip(1), 0, micros_per_beat, tick));
}

/// Every elapsed-time value is non-negative.
proof fn lemma_units_from_nonneg(entries: Seq<TempoEntry>, last_tick: u64, last_tempo: u32, tick: u64)
    requires
        tempo_from(entries, last_tick),
        tempo_sorted(entries),
        last_tick <= tick,
    ensures
        units_from(entries, last_tick, last_tempo, tick) >= 0,
    decreases entries.len(),
{
    if entries.len() == 0 || entries[0].tick > tick {
        assert((tick - last_tick) * last_tempo >= 0) by (nonlinear_arith)
            requires
                tick >= last_tick,
                last_tempo >= 0,
        ;
    } else {
        assert((entries[0].tick - last_tick) * last_tempo >= 0) by (nonlinear_arith)
            requires
                entries[0].tick >= last_tick,
                last_tempo >= 0,
        ;
        assert(tempo_from(entries.skip(1), entries[0].tick));
        assert(tempo_sorted(entries.skip(1)));
        lemma_units_from_nonneg(entries.skip(1), entries[0].tick, entries[0].micros_per_beat, tick);
    }
}

/// The clock is monotone: more ticks never mean less elapsed time.
pub proof fn lemma_units_at_monotone(entries: Seq<TempoEntry>, t1: u64, t2: u64)
    requires
        tempo_sorted(entries),
        t1 <= t2,
    ensures
        spec_units_at(entries, t1) <= spec_units_at(entries, t2),
{
    lemma_units_from_monotone(entries, 0, DEFAULT_TEMPO_MICROS, t1, t2);
}

proof fn lemma_units_from_monotone(entries: Seq<TempoEntry>, last_tick: u64, last_tempo: u32, t1: u64, t2: u64)
    requires
        tempo_from(entries, last_tick),
        tempo_sorted(entries),
        last_tick <= t1 <= t2,
    ensures
        units_from(entries, last_tick, last_tempo, t1) <= units_from(entries, last_tick, last_tempo, t2),
    decreases entries.len(),
{
    if entries.len() == 0 || entries[0].tick > t2 {
        assert((t1 - last_tick) * last_tempo <= (t2 - last_tick) * last_tempo) by (nonlinear_arith)
            requires
                last_tick <= t1 <= t2,
                last_tempo >= 0,
        ;
    } else if entries[0].tick > t1 {
        assert((t1 - last_tick) * last_tempo <= (entries[0].tick - last_tick) * last_tempo)
            by (nonlinear_arith)
            requires
                last_tick <= t1 <= entries[0].tick,
                last_tempo >= 0,
        ;
        assert(tempo_from(entries.skip(1), entries[0].tick));
        assert(tempo_sorted(entries.skip(1)));
        lemma_units_from_nonneg(entries.skip(1), entries[0].tick, entries[0].micros_per_beat, t2);
    } else {
        assert(tempo_from(entries.skip(1), entries[0].tick));
        assert(tempo_sorted(entries.skip(1)));
        lemma_units_from_monotone(entries.skip(1), entries[0].tick, entries[0].micros_per_beat, t1, t2);
    }
}

/// The clock never exceeds the final tick times the largest 32-bit tempo.
proof fn lemma_units_from_bound(entries: Seq<TempoEntry>, last_tick: u64, last_tempo: u32, tick: u64)
    requires
        tempo_from(entries, last_tick),
        tempo_sorted(entries),
        last_tick <= tick,
    ensures
        units_from(entries, last_tick, last_tempo, tick) <= (tick - last_tick) * 0xFFFF_FFFF,
    decreases entries.len(),
{
    if entries.len() == 0 || entries[0].tick > tick {
        assert((tick - last_tick) * last_tempo <= (tick - last_tick) * 0xFFFF_FFFF) by (nonlinear_arith)
            requires
                last_tick <= tick,
                0 <= last_tempo <= 0xFFFF_FFFF,
        ;
    } else {
        let mid = entries[0].tick;
        assert(tempo_from(entries.skip(1), mid));
        assert(tempo_sorted(entries.skip(1)));
        lemma_units_from_bound(entries.skip(1), mid, entries[0].micros_per_beat, tick);
        assert((mid - last_tick) * last_tempo <= (mid - last_tick) * 0xFFFF_FFFF) by (nonlinear_arith)
            requires
                last_tick <= mid,
                0 <= last_tempo <= 0xFFFF_FFFF,
        ;
        assert((mid - last_tick) * 0xFFFF_FFFF + (tick - mid) * 0xFFFF_FFFF
            == (tick - last_tick) * 0xFFFF_FFFF) by (nonlinear_arith);
    }
}

/// The clock stays within `MAX_TIME_UNITS` on every input.
pub proof fn lemma_units_at_bound(entries: Seq<TempoEntry>, tick: u64)
    requires
        tempo_sorted(entries),
    ensures
        0 <= spec_units_at(entries, tick) <= MAX_TIME_UNITS,
{
    assert(tempo_from(entries, 0));
    lemma_units_from_nonneg(entries, 0, DEFAULT_TEMPO_MICROS, tick);
    lemma_units_from_bound(entries, 0, DEFAULT_TEMPO_MICROS, tick);
    assert(tick * 0xFFFF_FFFF <= 0xFFFF_FFFF_FFFF_FFFF * 0xFFFF_FFFF) by (nonlinear_arith)
        requires
            0 <= tick <= 0xFFFF_FFFF_FFFF_FFFFu64,
    ;
}

/// The tempo map of one track, built once and immutable thereafter.
pub struct TempoMap {
    entries: Vec<TempoEntry>,
}

impl View for TempoMap {
    type V = Seq<TempoEntry>;

    closed spec fn view(&self) -> Seq<TempoEntry> {
        self.entries@
    }
}

impl TempoMap {
    /// A well-formed map starts with the implicit default entry at tick 0 and
    /// keeps its entry ticks non-decreasing.
    pub open spec fn wf(&self) -> bool {
        &&& self@.len() >= 1
        &&& self@[0] == (TempoEntry { tick: 0, micros_per_beat: DEFAULT_TEMPO_MICROS })
        &&& tempo_sorted(self@)
    }

    /// How many entries the map holds (the implicit default one included).
    pub fn len(&self) -> (n: usize)
        ensures
            n == self@.len(),
    {
        self.entries.len()
    }

    /// Reads one entry.
    pub fn entry(&self, i: usize) -> (e: TempoEntry)
        requires
            i < self@.len(),
        ensures
            e == self@[i as int],
    {
        self.entries[i]
    }

    /// Scans one track's events, accumulating the absolute tick position, and
    /// records every tempo change at the tick it occurs; ticks saturate at
    /// `u64::MAX`. The result is exactly the track's tempo map, and its entry
    /// ticks are non-decreasing.
    pub fn build(events: &Vec<TimedEvent>) -> (m: TempoMap)
        ensures
            m@ == spec_tempo_map(events@),
            m.wf(),
    {
        let mut entries: Vec<TempoEntry> = Vec::new();
        entries.push(TempoEntry { tick: 0, micros_per_beat: DEFAULT_TEMPO_MICROS });
        let mut tick: u64 = 0;
        let mut i: usize = 0;
        while i < events.len()
            invariant
                0 <= i <= events@.len(),
                tick == tick_after(events@, i as int),
                entries@ == seq![
                    TempoEntry { tick: 0, micros_per_beat: DEFAULT_TEMPO_MICROS },
                ] + tempo_entries_prefix(events@, i as int),
                tempo_sorted(entries@),
                forall|k: int| 0 <= k < entries@.len() ==> #[trigger] entries@[k].tick <= tick,
            decreases events@.len() - i,
        {
            let ev = events[i];
            let delta64: u64 = ev.delta as u64;
            if delta64 > u64::MAX - tick {
                tick = u64::MAX;
            } else {
                tick = tick + delta64;
            }
            assert(tick == tick_after(events@, i + 1));
            match ev.kind {
                EventKind::Tempo { micros_per_beat } => {
                    entries.push(TempoEntry { tick, micros_per_beat });
                    assert(entries@ == seq![
                        TempoEntry { tick: 0, micros_per_beat: DEFAULT_TEMPO_MICROS },
                    ] + tempo_entries_prefix(events@, i + 1));
                }
                _ => {
                    assert(tempo_entries_prefix(events@, i + 1)
                        == tempo_entries_prefix(events@, i as int));
                    assert(entries@ == seq![
                        TempoEntry { tick: 0, micros_per_beat: DEFAULT_TEMPO_MICROS },
                    ] + tempo_entries_prefix(events@, i + 1));
                }
            }
            i = i + 1;
        }
        TempoMap { entries }
    }

    /// The tick clock: converts an absolute tick position into elapsed time
    /// units since tick 0, summing every tempo segment whose start does not
    /// exceed the target tick, the last segment clipped at the target.
    pub fn ticks_to_units(&self, tick: u64) -> (u: u128)
        requires
            self.wf(),
        ensures
            u == spec_units_at(self@, tick),
            u <= MAX_TIME_UNITS,
    {
        proof {
            lemma_units_at_bound(self@, tick);
        }
        let ghost all = self@;
        proof {
            assert(all.skip(0) =~= all);
        }
        let mut acc: u128 = 0;
        let mut last_tick: u64 = 0;
        let mut last_tempo: u32 = DEFAULT_TEMPO_MICROS;
        let mut i: usize = 0;
        while i < self.entries.len() && self.entries[i].tick <= tick
            invariant
                self.wf(),
                all == self@,
                0 <= i <= all.len(),
                last_tick <= tick,
                tempo_from(all.skip(i as int), last_tick),
                acc + units_from(all.skip(i as int), last_tick, last_tempo, tick)
                    == spec_units_at(all, tick),
                acc <= last_tick as int * 0xFFFF_FFFF,
            decreases all.len() - i,
        {
            let e = self.entries[i];
            proof {
                assert(all.skip(i as int)[0] == e);
                assert(all.skip(i as int).skip(1) =~= all.skip(i + 1));
                assert(tempo_sorted(all.skip(i as int)));
                assert(tempo_from(all.skip(i + 1), e.tick));
                assert((e.tick - last_tick) as u128 * last_tempo as u128
                    == (e.tick - last_tick) * last_tempo) by (nonlinear_arith)
                    requires
                        last_tick <= e.tick,
                ;
                assert(acc + (e.tick - last_tick) * last_tempo <= e.tick as int * 0xFFFF_FFFF)
                    by (nonlinear_arith)
                    requires
                        acc <= last_tick as int * 0xFFFF_FFFF,
                        last_tick <= e.tick,
                        0 <= last_tempo <= 0xFFFF_FFFF,
                ;
                assert(e.tick as int * 0xFFFF_FFFF <= MAX_TIME_UNITS) by (nonlinear_arith)
                    requires
                        0 <= e.tick <= 0xFFFF_FFFF_FFFF_FFFFu64,
                ;
            }
            acc = acc + (e.tick - last_tick) as u128 * (last_tempo as u128);
            last_tick = e.tick;
            last_tempo = e.micros_per_beat;
            i = i + 1;
        }
        proof {
            if i < all.len() {
                assert(all.skip(i as int)[0].tick > tick);
            } else {
                assert(all.skip(i as int) =~= Seq::<TempoEntry>::empty());
            }
            assert(units_from(all.skip(i as int), last_tick, last_tempo, tick)
                == (tick - last_tick) * last_tempo);
            assert((tick - last_tick) as u128 * last_tempo as u128
                == (tick - last_tick) * last_tempo) by (nonlinear_arith)
                requires
                    last_tick <= tick,
            ;
        }
        acc + (tick - last_tick) as u128 * (last_tempo as u128)
    }
}

} // verus!
