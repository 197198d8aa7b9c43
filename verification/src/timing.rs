//! Timing utilities for BPM-aware chart processing.
//!
//! This module extracts tempo sections from raw timing points and converts
//! between absolute time and beat position, so that notes can be snapped to
//! the musical grid (1/192 of a beat) regardless of tempo changes.
//!
//! Everything is exact integer arithmetic. A tempo is stored in thousandths
//! of a beat-per-minute (`bpm_milli`). A beat position is stored in *beat
//! units*, where one beat is [`BEAT_UNITS_PER_BEAT`] units; this denominator
//! is chosen so that a time delta in microseconds times a tempo in
//! milli-bpm is exactly a beat delta in beat units:
//! `beats = (dt_us / 1e6) * (bpm_milli / 1e3) / 60 = dt_us * bpm_milli / BEAT_UNITS_PER_BEAT`.

use vstd::prelude::*;

use crate::arith::round_div;
use crate::arith::lemma_round_div_error;
use crate::arith::lemma_round_div_magnitude;
use crate::arith::round_div_i128;
use crate::chart::Chart;
use crate::chart::TimingPoint;
use crate::chart::timing_point_valid;
use crate::chart::timing_point_bounded;
use vstd::relations::sorted_by;
use vstd::relations::total_ordering;
use vstd::seq_lib::lemma_sorted_unique;
use vstd::seq_lib::lemma_multiset_commutative;
use vstd::seq_lib::group_to_multiset_ensures;

verus! {

/// Number of beat units in one beat.
pub const BEAT_UNITS_PER_BEAT: i64 = 60_000_000_000;

/// Snap grid resolution: notes snap to 1/192 of a beat.
pub const SNAP_DIVISOR: i64 = 192;

/// Beat units in one snap grid step (1/192 of a beat).
pub const SNAP_TICK_UNITS: i64 = 312_500_000;

/// Tempo used when a section carries a degenerate (zero) tempo, so that no
/// division by zero can occur: 120 beats per minute.
pub const FALLBACK_BPM_MILLI: u32 = 120_000;

/// Largest tempo accepted, in thousandths of a bpm (100,000 bpm).
pub const MAX_BPM_MILLI: u32 = 100_000_000;

/// Largest time magnitude accepted, in microseconds (about 31.7 years).
pub const MAX_TIME_US: i64 = 1_000_000_000_000_000;

/// Largest section beat offset accepted, in beat units.
pub const MAX_SECTION_BEAT_UNITS: i128 = 1_000_000_000_000_000_000_000_000;

/// Bound on the beat position produced by [`us_to_beat`] for bounded
/// sections, in beat units.
pub const BEAT_RESULT_LIMIT: i128 = 950_000_000_000_000_000_000_000_000;

/// Largest beat position accepted by [`beat_to_us`], in beat units.
pub const BEAT_POS_LIMIT: i128 = 1_000_000_000_000_000_000_000_000_000;

/// A tempo section extracted from timing points.
#[derive(Debug, Clone, Copy, PartialEq, Eq, Structural)]
pub struct BpmSection {
    /// Start time in microseconds.
    pub start_time_us: i64,
    /// Beats per minute, in thousandths.
    pub bpm_milli: u32,
    /// Beat position where this section starts, in beat units.
    pub start_beat_units: i128,
}

/// An exact beat position, in beat units.
#[derive(Debug, Clone, Copy, PartialEq, Eq, Structural)]
pub struct BeatPos {
    pub units: i128,
}

/// The tempo used for a section's arithmetic: its own tempo, or the fallback
/// when the stored tempo is degenerate. Always at least 1.
pub open spec fn eff_bpm(s: BpmSection) -> int {
    if s.bpm_milli == 0 {
        FALLBACK_BPM_MILLI as int
    } else {
        s.bpm_milli as int
    }
}

/// Field bounds on one section, as the executable conversions require.
pub open spec fn section_bounded(s: BpmSection) -> bool {
    &&& -MAX_TIME_US <= s.start_time_us <= MAX_TIME_US
    &&& s.bpm_milli <= MAX_BPM_MILLI
    &&& -MAX_SECTION_BEAT_UNITS <= s.start_beat_units <= MAX_SECTION_BEAT_UNITS
}

/// Field bounds on every section of a sequence.
pub open spec fn sections_bounded(ss: Seq<BpmSection>) -> bool {
    forall|i: int| 0 <= i < ss.len() ==> section_bounded(#[trigger] ss[i])
}

/// Sections are ordered by start time (ascending, ties allowed).
pub open spec fn sections_time_sorted(ss: Seq<BpmSection>) -> bool {
    forall|i: int, j: int|
        0 <= i <= j < ss.len() ==> #[trigger] ss[i].start_time_us <= #[trigger] ss[j].start_time_us
}

/// Sections are ordered by start beat (ascending, ties allowed).
pub open spec fn sections_beat_sorted(ss: Seq<BpmSection>) -> bool {
    forall|i: int, j: int|
        0 <= i <= j < ss.len() ==> #[trigger] ss[i].start_beat_units
            <= #[trigger] ss[j].start_beat_units
}

/// Well-formed tempo timeline, as the tempo builder produces it: nonempty,
/// bounded, ordered by time, anchored at beat zero, every tempo positive,
/// and each section's beat offset exactly the accumulation of the elapsed
/// beats of its predecessor.
pub open spec fn sections_wf(ss: Seq<BpmSection>) -> bool {
    &&& ss.len() >= 1
    &&& forall|i: int|
        0 <= i < ss.len() ==> {
            &&& section_bounded(#[trigger] ss[i])
            &&& 1 <= ss[i].bpm_milli
        }
    &&& ss[0].start_beat_units == 0
    &&& forall|i: int|
        0 <= i < ss.len() - 1 ==> #[trigger] ss[i].start_time_us <= ss[i + 1].start_time_us
    &&& forall|i: int|
        0 <= i < ss.len() - 1 ==> #[trigger] ss[i + 1].start_beat_units == ss[i].start_beat_units
            + (ss[i + 1].start_time_us - ss[i].start_time_us) * ss[i].bpm_milli
}

/// Index of the section active at time `t`: the last section whose start
/// time is at or before `t`, or the first section when `t` precedes all of
/// them.
pub open spec fn active_index_by_time(ss: Seq<BpmSection>, t: int) -> int
    decreases ss.len(),
{
    if ss.len() <= 1 {
        0
    } else if ss[ss.len() - 1].start_time_us <= t {
        ss.len() - 1
    } else {
        active_index_by_time(ss.drop_last(), t)
    }
}

/// Index of the section active at beat position `b`, by start beat.
pub open spec fn active_index_by_beat(ss: Seq<BpmSection>, b: int) -> int
    decreases ss.len(),
{
    if ss.len() <= 1 {
        0
    } else if ss[ss.len() - 1].start_beat_units <= b {
        ss.len() - 1
    } else {
        active_index_by_beat(ss.drop_last(), b)
    }
}

/// Beat position at time `t`, in beat units: the active section's beat
/// offset plus the elapsed beats within it (negative when extrapolating
/// backward before the first section). Zero for an empty timeline.
pub open spec fn beat_units_at(ss: Seq<BpmSection>, t: int) -> int {
    if ss.len() == 0 {
        0
    } else {
        let s = ss[active_index_by_time(ss, t)];
        s.start_beat_units + (t - s.start_time_us) * eff_bpm(s)
    }
}

/// Time in microseconds at beat position `b`: the active section's start
/// time plus the elapsed beats converted back, rounded to the nearest
/// microsecond. Zero for an empty timeline.
pub open spec fn time_at_beat_units(ss: Seq<BpmSection>, b: int) -> int {
    if ss.len() == 0 {
        0
    } else {
        let s = ss[active_index_by_beat(ss, b)];
        s.start_time_us + round_div(b - s.start_beat_units, eff_bpm(s))
    }
}

/// Saturation of a mathematical integer into the `i64` range.
pub open spec fn clamp_i64(v: int) -> int {
    if v > i64::MAX {
        i64::MAX as int
    } else if v < i64::MIN {
        i64::MIN as int
    } else {
        v
    }
}

/// Beat position snapped to the nearest 1/192-beat grid line.
pub open spec fn snap_beat_units(b: int) -> int {
    round_div(b * SNAP_DIVISOR, BEAT_UNITS_PER_BEAT as int) * SNAP_TICK_UNITS
}

/// Time `t` snapped to the nearest 1/192-beat grid line and converted back
/// to microseconds.
pub open spec fn quantize_spec(ss: Seq<BpmSection>, t: int) -> int {
    time_at_beat_units(ss, snap_beat_units(beat_units_at(ss, t)))
}

/// The active-by-time index is in range, every later section starts after
/// `t`, and a nonzero index starts at or before `t`. Holds for any sequence.
pub proof fn lemma_active_time_props(ss: Seq<BpmSection>, t: int)
    requires
        ss.len() >= 1,
    ensures
        0 <= active_index_by_time(ss, t) < ss.len(),
        forall|k: int|
            active_index_by_time(ss, t) < k < ss.len() ==> #[trigger] ss[k].start_time_us > t,
        active_index_by_time(ss, t) > 0 ==> ss[active_index_by_time(ss, t)].start_time_us <= t,
    decreases ss.len(),
{
    if ss.len() > 1 && ss[ss.len() - 1].start_time_us > t {
        lemma_active_time_props(ss.drop_last(), t);
        let a = active_index_by_time(ss, t);
        assert forall|k: int| a < k < ss.len() implies #[trigger] ss[k].start_time_us > t by {
            if k < ss.len() - 1 {
                assert(ss.drop_last()[k] == ss[k]);
            }
        }
        if a > 0 {
            assert(ss.drop_last()[a] == ss[a]);
        }
    }
}

/// Under time-sortedness, the three properties above pin the index down.
pub proof fn lemma_active_time_unique(ss: Seq<BpmSection>, t: int, i: int)
    requires
        ss.len() >= 1,
        sections_time_sorted(ss),
        0 <= i < ss.len(),
        forall|k: int| i < k < ss.len() ==> #[trigger] ss[k].start_time_us > t,
        i > 0 ==> ss[i].start_time_us <= t,
    ensures
        i == active_index_by_time(ss, t),
{
    let a = active_index_by_time(ss, t);
    lemma_active_time_props(ss, t);
    if a < i {
        assert(ss[i].start_time_us > t);
    } else if a > i {
        assert(ss[a].start_time_us > t);
    }
}

/// Counterpart of [`lemma_active_time_props`] for the beat-indexed lookup.
pub proof fn lemma_active_beat_props(ss: Seq<BpmSection>, b: int)
    requires
        ss.len() >= 1,
    ensures
        0 <= active_index_by_beat(ss, b) < ss.len(),
        forall|k: int|
            active_index_by_beat(ss, b) < k < ss.len() ==> #[trigger] ss[k].start_beat_units > b,
        active_index_by_beat(ss, b) > 0 ==> ss[active_index_by_beat(ss, b)].start_beat_units <= b,
    decreases ss.len(),
{
    if ss.len() > 1 && ss[ss.len() - 1].start_beat_units > b {
        lemma_active_beat_props(ss.drop_last(), b);
        let a = active_index_by_beat(ss, b);
        assert forall|k: int| a < k < ss.len() implies #[trigger] ss[k].start_beat_units > b by {
            if k < ss.len() - 1 {
                assert(ss.drop_last()[k] == ss[k]);
            }
        }
        if a > 0 {
            assert(ss.drop_last()[a] == ss[a]);
        }
    }
}

/// Counterpart of [`lemma_active_time_unique`] for the beat-indexed lookup.
pub proof fn lemma_active_beat_unique(ss: Seq<BpmSection>, b: int, i: int)
    requires
        ss.len() >= 1,
        sections_beat_sorted(ss),
        0 <= i < ss.len(),
        forall|k: int| i < k < ss.len() ==> #[trigger] ss[k].start_beat_units > b,
        i > 0 ==> ss[i].start_beat_units <= b,
    ensures
        i == active_index_by_beat(ss, b),
{
    let a = active_index_by_beat(ss, b);
    lemma_active_beat_props(ss, b);
    if a < i {
        assert(ss[i].start_beat_units > b);
    } else if a > i {
        assert(ss[a].start_beat_units > b);
    }
}

/// The tempo actually used for a section's arithmetic.
fn effective_bpm_milli(s: &BpmSection) -> (r: u32)
    ensures
        r as int == eff_bpm(*s),
        1 <= r,
{
    if s.bpm_milli == 0 {
        FALLBACK_BPM_MILLI
    } else {
        s.bpm_milli
    }
}

/// Binary search for the active section at time `t`.
fn section_index_by_time(sections: &Vec<BpmSection>, t: i64) -> (idx: usize)
    requires
        sections.len() >= 1,
        sections_time_sorted(sections@),
    ensures
        idx as int == active_index_by_time(sections@, t as int),
        idx < sections.len(),
{
    let mut lo: usize = 0;
    let mut hi: usize = sections.len();
    while lo < hi
        invariant
            0 <= lo <= hi <= sections.len(),
            forall|k: int| 0 <= k < lo ==> #[trigger] sections@[k].start_time_us <= t,
            forall|k: int| hi <= k < sections.len() ==> #[trigger] sections@[k].start_time_us > t,
            sections_time_sorted(sections@),
        decreases hi - lo,
    {
        let mid = lo + (hi - lo) / 2;
        if sections[mid].start_time_us <= t {
            lo = mid + 1;
        } else {
            hi = mid;
        }
    }
    let idx = if lo == 0 {
        0
    } else {
        lo - 1
    };
    proof {
        lemma_active_time_unique(sections@, t as int, idx as int);
    }
    idx
}

/// Binary search for the active section at beat position `b`.
fn section_index_by_beat(sections: &Vec<BpmSection>, b: i128) -> (idx: usize)
    requires
        sections.len() >= 1,
        sections_beat_sorted(sections@),
    ensures
        idx as int == active_index_by_beat(sections@, b as int),
        idx < sections.len(),
{
    let mut lo: usize = 0;
    let mut hi: usize = sections.len();
    while lo < hi
        invariant
            0 <= lo <= hi <= sections.len(),
            forall|k: int| 0 <= k < lo ==> #[trigger] sections@[k].start_beat_units <= b,
            forall|k: int| hi <= k < sections.len() ==> #[trigger] sections@[k].start_beat_units > b,
            sections_beat_sorted(sections@),
        decreases hi - lo,
    {
        let mid = lo + (hi - lo) / 2;
        if sections[mid].start_beat_units <= b {
            lo = mid + 1;
        } else {
            hi = mid;
        }
    }
    let idx = if lo == 0 {
        0
    } else {
        lo - 1
    };
    proof {
        lemma_active_beat_unique(sections@, b as int, idx as int);
    }
    idx
}

/// Convert a time in microseconds to its exact beat position.
///
/// When `time_us` precedes the first section, the first section's tempo is
/// extrapolated backward, so the result can be negative. An empty timeline
/// yields beat zero.
pub fn us_to_beat(time_us: i64, sections: &Vec<BpmSection>) -> (b: BeatPos)
    requires
        sections_time_sorted(sections@),
        sections_bounded(sections@),
    ensures
        b.units as int == beat_units_at(sections@, time_us as int),
        -BEAT_RESULT_LIMIT <= b.units <= BEAT_RESULT_LIMIT,
{
    if sections.len() == 0 {
        return BeatPos { units: 0 };
    }
    let idx = section_index_by_time(sections, time_us);
    let s = sections[idx];
    proof {
        assert(section_bounded(sections@[idx as int]));
    }
    let bpm = effective_bpm_milli(&s);
    let delta: i128 = (time_us as i128) - (s.start_time_us as i128);
    proof {
        assert(-BEAT_RESULT_LIMIT <= s.start_beat_units + delta * (bpm as int)
            <= BEAT_RESULT_LIMIT) by (nonlinear_arith)
            requires
                -MAX_SECTION_BEAT_UNITS <= s.start_beat_units <= MAX_SECTION_BEAT_UNITS,
                1 <= bpm <= MAX_BPM_MILLI,
                -9_225_000_000_000_000_000 <= delta <= 9_225_000_000_000_000_000,
        ;
    }
    BeatPos { units: s.start_beat_units + delta * (bpm as i128) }
}

/// Convert a beat position back to a time in microseconds, rounded to the
/// nearest microsecond and saturated at the `i64` range.
pub fn beat_to_us(beat: BeatPos, sections: &Vec<BpmSection>) -> (t: i64)
    requires
        sections_beat_sorted(sections@),
        sections_bounded(sections@),
        -BEAT_POS_LIMIT <= beat.units <= BEAT_POS_LIMIT,
    ensures
        t as int == clamp_i64(time_at_beat_units(sections@, beat.units as int)),
{
    if sections.len() == 0 {
        return 0;
    }
    let idx = section_index_by_beat(sections, beat.units);
    let s = sections[idx];
    proof {
        assert(section_bounded(sections@[idx as int]));
    }
    let bpm = effective_bpm_milli(&s);
    let delta: i128 = beat.units - s.start_beat_units;
    let q = round_div_i128(delta, bpm as i128);
    proof {
        lemma_round_div_magnitude(delta as int, bpm as int);
    }
    let v: i128 = (s.start_time_us as i128) + q;
    if v > i64::MAX as i128 {
        i64::MAX
    } else if v < i64::MIN as i128 {
        i64::MIN
    } else {
        v as i64
    }
}

/// Quantize a time to the nearest 1/192-beat grid line.
///
/// The time is converted to beats, snapped to the grid, and converted back;
/// the result is saturated at the `i64` range (which a well-formed timeline
/// and a bounded input time never reach).
pub fn quantize_adaptive(time_us: i64, sections: &Vec<BpmSection>) -> (q: i64)
    requires
        sections_time_sorted(sections@),
        sections_beat_sorted(sections@),
        sections_bounded(sections@),
    ensures
        q as int == clamp_i64(quantize_spec(sections@, time_us as int)),
{
    let raw = us_to_beat(time_us, sections);
    proof {
        assert(-BEAT_RESULT_LIMIT * 192 <= raw.units * (SNAP_DIVISOR as int)
            <= BEAT_RESULT_LIMIT * 192) by (nonlinear_arith)
            requires
                -BEAT_RESULT_LIMIT <= raw.units <= BEAT_RESULT_LIMIT,
                SNAP_DIVISOR as int == 192,
        ;
    }
    let scaled: i128 = raw.units * (SNAP_DIVISOR as i128);
    let k = round_div_i128(scaled, BEAT_UNITS_PER_BEAT as i128);
    proof {
        lemma_round_div_error(scaled as int, BEAT_UNITS_PER_BEAT as int);
        assert(-BEAT_POS_LIMIT <= k * (SNAP_TICK_UNITS as int) <= BEAT_POS_LIMIT)
            by (nonlinear_arith)
            requires
                2 * (k * (BEAT_UNITS_PER_BEAT as int) - scaled) <= BEAT_UNITS_PER_BEAT as int,
                -(BEAT_UNITS_PER_BEAT as int) <= 2 * (k * (BEAT_UNITS_PER_BEAT as int) - scaled),
                -BEAT_RESULT_LIMIT * 192 <= scaled <= BEAT_RESULT_LIMIT * 192,
                BEAT_UNITS_PER_BEAT as int == 192 * (SNAP_TICK_UNITS as int),
        ;
    }
    let snapped = BeatPos { units: k * (SNAP_TICK_UNITS as i128) };
    beat_to_us(snapped, sections)
}


impl BpmSection {
    /// Scales this section's tempo by a playback rate given in thousandths
    /// (1000 is unchanged), truncating to whole milli-bpm.
    pub fn scale_tempo(&mut self, rate_milli: u32)
        requires
            old(self).bpm_milli * rate_milli / 1000 <= u32::MAX,
        ensures
            final(self).bpm_milli == old(self).bpm_milli * rate_milli / 1000,
            final(self).start_time_us == old(self).start_time_us,
            final(self).start_beat_units == old(self).start_beat_units,
    {
        self.bpm_milli = ((self.bpm_milli as u64) * (rate_milli as u64) / 1000) as u32;
    }
}

/// Total order on `(time, tempo, position)` triples: by time, then by the
/// point's position among the participating points, then by tempo. Ordering
/// by position keeps equal-time points in chart order (a stable sort).
pub open spec fn pair_leq(a: (i64, u32, usize), b: (i64, u32, usize)) -> bool {
    a.0 < b.0 || (a.0 == b.0 && (a.2 < b.2 || (a.2 == b.2 && a.1 <= b.1)))
}

/// The `(time, tempo, position)` triples of the timing points that
/// participate in tempo derivation, in chart order; the position numbers
/// them in that order.
pub open spec fn valid_pairs(tps: Seq<TimingPoint>) -> Seq<(i64, u32, usize)>
    decreases tps.len(),
{
    if tps.len() == 0 {
        Seq::empty()
    } else {
        let rest = valid_pairs(tps.drop_last());
        let p = tps.last();
        if timing_point_valid(p) {
            rest.push((p.time_us, p.bpm_milli, rest.len() as usize))
        } else {
            rest
        }
    }
}

/// [`pair_leq`] as a single shared ordering value.
pub open spec fn pair_order() -> spec_fn((i64, u32, usize), (i64, u32, usize)) -> bool {
    |a: (i64, u32, usize), b: (i64, u32, usize)| pair_leq(a, b)
}

/// The participating pairs, ordered by time, ties kept in chart order.
pub open spec fn sorted_valid_pairs(tps: Seq<TimingPoint>) -> Seq<(i64, u32, usize)> {
    valid_pairs(tps).sort_by(pair_order())
}

/// The single section used when a chart has no timing points: 120 bpm from
/// time zero.
pub open spec fn default_section() -> BpmSection {
    BpmSection { start_time_us: 0, bpm_milli: FALLBACK_BPM_MILLI, start_beat_units: 0 }
}

/// Tempo sections built from time-ordered `(time, tempo)` pairs: the first
/// pair anchors beat zero, and each later section's beat offset accumulates
/// the beats elapsed under its predecessor's tempo.
pub open spec fn sections_from_pairs(ps: Seq<(i64, u32, usize)>) -> Seq<BpmSection>
    decreases ps.len(),
{
    if ps.len() == 0 {
        seq![default_section()]
    } else if ps.len() == 1 {
        seq![BpmSection { start_time_us: ps[0].0, bpm_milli: ps[0].1, start_beat_units: 0 }]
    } else {
        let prev = sections_from_pairs(ps.drop_last());
        let last = prev[prev.len() - 1];
        let p = ps[ps.len() - 1];
        prev.push(
            BpmSection {
                start_time_us: p.0,
                bpm_milli: p.1,
                start_beat_units: (last.start_beat_units + (p.0 - last.start_time_us)
                    * last.bpm_milli) as i128,
            },
        )
    }
}

/// Bounds on one `(time, tempo, position)` pair as the builder requires
/// them.
pub open spec fn pair_bounded(p: (i64, u32, usize)) -> bool {
    &&& -MAX_TIME_US <= p.0 <= MAX_TIME_US
    &&& 1 <= p.1 <= MAX_BPM_MILLI
}

/// Sections built from sorted, bounded pairs form a well-formed timeline
/// that carries exactly those pairs, with beat offsets that never exceed the
/// elapsed time times the tempo cap.
pub proof fn lemma_sections_from_pairs_wf(ps: Seq<(i64, u32, usize)>)
    requires
        sorted_by(ps, pair_order()),
        forall|i: int| 0 <= i < ps.len() ==> pair_bounded(#[trigger] ps[i]),
    ensures
        sections_wf(sections_from_pairs(ps)),
        ps.len() == 0 ==> sections_from_pairs(ps) == seq![default_section()],
        ps.len() >= 1 ==> sections_from_pairs(ps).len() == ps.len(),
        forall|i: int|
            0 <= i < ps.len() ==> (#[trigger] sections_from_pairs(ps)[i]).start_time_us == ps[i].0
                && sections_from_pairs(ps)[i].bpm_milli == ps[i].1,
        forall|i: int|
            0 <= i < sections_from_pairs(ps).len() ==> 0 <= (#[trigger] sections_from_pairs(
                ps,
            )[i]).start_beat_units <= (sections_from_pairs(ps)[i].start_time_us
                - sections_from_pairs(ps)[0].start_time_us) * MAX_BPM_MILLI,
    decreases ps.len(),
{
    let ss = sections_from_pairs(ps);
    if ps.len() <= 1 {
        assert((ss[0].start_time_us - ss[0].start_time_us) * MAX_BPM_MILLI == 0)
            by (nonlinear_arith);
    } else {
        let leq = pair_order();
        assert(sorted_by(ps.drop_last(), leq)) by {
            assert(forall|k: int|
                0 <= k < ps.len() - 1 ==> #[trigger] ps.drop_last()[k] == ps[k]);
        }
        lemma_sections_from_pairs_wf(ps.drop_last());
        let prev = sections_from_pairs(ps.drop_last());
        let n = ps.len() - 1;
        let last = prev[n - 1];
        let p = ps[n];
        assert(leq(ps[n - 1], ps[n]));
        assert(ps.drop_last()[n - 1] == ps[n - 1]);
        let dt = p.0 - last.start_time_us;
        assert(dt >= 0);
        let raw = last.start_beat_units + dt * last.bpm_milli;
        assert(0 <= dt * last.bpm_milli && dt * last.bpm_milli <= dt * MAX_BPM_MILLI)
            by (nonlinear_arith)
            requires
                dt >= 0,
                1 <= last.bpm_milli <= MAX_BPM_MILLI,
        ;
        assert((last.start_time_us - prev[0].start_time_us) * MAX_BPM_MILLI + dt * MAX_BPM_MILLI
            == (p.0 - prev[0].start_time_us) * MAX_BPM_MILLI) by (nonlinear_arith)
            requires
                dt == p.0 - last.start_time_us,
        ;
        assert((p.0 - prev[0].start_time_us) * MAX_BPM_MILLI <= 2 * MAX_TIME_US * (
        MAX_BPM_MILLI as int)) by (nonlinear_arith)
            requires
                -MAX_TIME_US <= prev[0].start_time_us,
                p.0 <= MAX_TIME_US,
        ;
        assert(0 <= raw <= MAX_SECTION_BEAT_UNITS);
        assert(raw as i128 == raw);
        assert(ss == prev.push(
            BpmSection { start_time_us: p.0, bpm_milli: p.1, start_beat_units: raw as i128 },
        ));
        assert(forall|i: int| 0 <= i < prev.len() ==> #[trigger] ss[i] == prev[i]);
    }
}

/// Executable comparison mirroring [`pair_leq`].
fn pair_le(a: (i64, u32, usize), b: (i64, u32, usize)) -> (r: bool)
    ensures
        r == pair_leq(a, b),
{
    a.0 < b.0 || (a.0 == b.0 && (a.2 < b.2 || (a.2 == b.2 && a.1 <= b.1)))
}

/// Inserting an element anywhere in a sequence adds it to the multiset.
proof fn lemma_insert_to_multiset(s: Seq<(i64, u32, usize)>, i: int, e: (i64, u32, usize))
    requires
        0 <= i <= s.len(),
    ensures
        s.insert(i, e).to_multiset() =~= s.to_multiset().insert(e),
{
    broadcast use group_to_multiset_ensures;
    broadcast use vstd::multiset::group_multiset_axioms;

    assert(s.insert(i, e) =~= s.take(i).push(e) + s.skip(i));
    lemma_multiset_commutative(s.take(i).push(e), s.skip(i));
    assert(s =~= s.take(i) + s.skip(i));
    lemma_multiset_commutative(s.take(i), s.skip(i));
    assert(s.take(i).push(e).to_multiset() =~= s.take(i).to_multiset().insert(e));
    assert(s.take(i).to_multiset().insert(e).add(s.skip(i).to_multiset()) =~= s.take(
        i,
    ).to_multiset().add(s.skip(i).to_multiset()).insert(e));
}

/// [`pair_leq`] is a total order.
proof fn lemma_pair_leq_total()
    ensures
        total_ordering(pair_order()),
{
}

/// Extracts the tempo timeline from a chart: the participating timing
/// points, ordered by time (ties broken by tempo), with cumulative beat
/// offsets anchored at beat zero; one default 120 bpm section when none
/// participate.
pub fn extract_bpm_sections_from_chart(chart: &Chart) -> (sections: Vec<BpmSection>)
    requires
        forall|i: int|
            0 <= i < chart.timing_points@.len() ==> timing_point_bounded(
                #[trigger] chart.timing_points@[i],
            ),
    ensures
        sections@ == sections_from_pairs(sorted_valid_pairs(chart.timing_points@)),
        sections_wf(sections@),
        valid_pairs(chart.timing_points@).len() == 0 ==> sections@ =~= seq![default_section()],
{
    let tps = &chart.timing_points;
    let ghost leq = pair_order();

    // collect the participating points' pairs, numbering them in chart order
    let mut pairs: Vec<(i64, u32, usize)> = Vec::new();
    let mut i: usize = 0;
    while i < tps.len()
        invariant
            i <= tps.len(),
            pairs@ == valid_pairs(tps@.take(i as int)),
            forall|k: int|
                0 <= k < tps@.len() ==> timing_point_bounded(#[trigger] tps@[k]),
            forall|k: int| 0 <= k < pairs@.len() ==> pair_bounded(#[trigger] pairs@[k]),
        decreases tps.len() - i,
    {
        let p = tps[i];
        proof {
            assert(tps@.take(i + 1).drop_last() =~= tps@.take(i as int));
            assert(tps@.take(i + 1).last() == tps@[i as int]);
        }
        if !p.is_inherited && p.bpm_milli > 0 {
            let pos = pairs.len();
            pairs.push((p.time_us, p.bpm_milli, pos));
        }
        i = i + 1;
    }
    proof {
        assert(tps@.take(tps@.len() as int) =~= tps@);
    }

    // insertion sort by time, ties kept in chart order
    let mut sorted: Vec<(i64, u32, usize)> = Vec::new();
    proof {
        assert(sorted@ =~= pairs@.take(0));
    }
    let mut i: usize = 0;
    while i < pairs.len()
        invariant
            i <= pairs.len(),
            leq == pair_order(),
            sorted_by(sorted@, leq),
            sorted@.to_multiset() == pairs@.take(i as int).to_multiset(),
            sorted@.len() == i,
            forall|k: int| 0 <= k < pairs@.len() ==> pair_bounded(#[trigger] pairs@[k]),
            forall|k: int| 0 <= k < sorted@.len() ==> pair_bounded(#[trigger] sorted@[k]),
        decreases pairs.len() - i,
    {
        let x = pairs[i];
        let mut pos: usize = 0;
        loop
            invariant
                pos <= sorted.len(),
                forall|k: int| 0 <= k < pos ==> pair_leq(#[trigger] sorted@[k], x),
            ensures
                pos <= sorted.len(),
                forall|k: int| 0 <= k < pos ==> pair_leq(#[trigger] sorted@[k], x),
                pos == sorted.len() || !pair_leq(sorted@[pos as int], x),
            decreases sorted.len() - pos,
        {
            if pos >= sorted.len() {
                break;
            }
            if !pair_le(sorted[pos], x) {
                break;
            }
            pos = pos + 1;
        }
        proof {
            broadcast use group_to_multiset_ensures;

            lemma_insert_to_multiset(sorted@, pos as int, x);
            assert(pairs@.take(i + 1) =~= pairs@.take(i as int).push(x));
            assert(pairs@.take(i + 1).to_multiset() =~= pairs@.take(
                i as int,
            ).to_multiset().insert(x));
        }
        let ghost old_sorted = sorted@;
        sorted.insert(pos, x);
        proof {
            assert forall|a: int, b: int| 0 <= a < b < sorted@.len() implies #[trigger] leq(
                sorted@[a],
                sorted@[b],
            ) by {
                if b < pos {
                    assert(leq(old_sorted[a], old_sorted[b]));
                } else if a > pos {
                    assert(leq(old_sorted[a - 1], old_sorted[b - 1]));
                } else if a < pos && b == pos {
                    assert(pair_leq(old_sorted[a], x));
                } else if a < pos && b > pos {
                    if a < b - 1 {
                        assert(leq(old_sorted[a], old_sorted[b - 1]));
                    }
                } else if a == pos && b > pos {
                    // x precedes everything the scan stopped on
                    assert(!pair_leq(old_sorted[pos as int], x));
                    assert(pair_leq(x, old_sorted[pos as int]));
                    if pos < b - 1 {
                        assert(leq(old_sorted[pos as int], old_sorted[b - 1]));
                    }
                }
            }
        }
        i = i + 1;
    }
    proof {
        assert(pairs@.take(pairs@.len() as int) =~= pairs@);
        lemma_pair_leq_total();
        valid_pairs(tps@).lemma_sort_by_ensures(leq);
        lemma_sorted_unique(sorted@, sorted_valid_pairs(tps@), leq);
        assert(sorted@ =~= sorted_valid_pairs(tps@));
        assert(forall|k: int|
            0 <= k < sorted@.len() ==> pair_bounded(#[trigger] sorted_valid_pairs(tps@)[k]));
    }

    // accumulate beat offsets
    let ghost sps = sorted_valid_pairs(tps@);
    let mut sections: Vec<BpmSection> = Vec::new();
    if sorted.len() == 0 {
        sections.push(
            BpmSection { start_time_us: 0, bpm_milli: FALLBACK_BPM_MILLI, start_beat_units: 0 },
        );
        proof {
            assert(sections@ =~= sections_from_pairs(sps));
            lemma_sections_from_pairs_wf(sps);
        }
        return sections;
    }
    let first = sorted[0];
    sections.push(BpmSection { start_time_us: first.0, bpm_milli: first.1, start_beat_units: 0 });
    proof {
        assert(sections@ =~= sections_from_pairs(sps.take(1)));
    }
    let mut i: usize = 1;
    while i < sorted.len()
        invariant
            1 <= i <= sorted.len(),
            leq == pair_order(),
            sorted@ == sps,
            sorted@.len() >= 1,
            sections@ == sections_from_pairs(sps.take(i as int)),
            sections@.len() == i,
            sorted_by(sorted@, leq),
            forall|k: int| 0 <= k < sorted@.len() ==> pair_bounded(#[trigger] sorted@[k]),
        decreases sorted.len() - i,
    {
        let p = sorted[i];
        let last = sections[i - 1];
        proof {
            assert(sps.take(i as int).drop_last() =~= sps.take(i - 1));
            assert(sps.take(i + 1).drop_last() =~= sps.take(i as int));
            assert(forall|k: int|
                0 <= k < i + 1 ==> pair_bounded(#[trigger] sps.take(i + 1)[k]));
            assert(sorted_by(sps.take(i + 1), leq)) by {
                assert(forall|a: int, b: int|
                    0 <= a < b < i + 1 ==> #[trigger] leq(sps.take(i + 1)[a], sps.take(i + 1)[b])
                        == leq(sps[a], sps[b]));
            }
            lemma_sections_from_pairs_wf(sps.take(i + 1));
            lemma_sections_from_pairs_wf(sps.take(i as int));
            assert(sections_from_pairs(sps.take(i + 1)).drop_last() =~= sections_from_pairs(
                sps.take(i as int),
            ));
            assert(last == sections_from_pairs(sps.take(i + 1))[i - 1]);
        }
        let dt: i64 = p.0 - last.start_time_us;
        let add: i128 = (dt as i128) * (last.bpm_milli as i128);
        proof {
            let nss = sections_from_pairs(sps.take(i + 1));
            assert(nss[i as int].start_beat_units == last.start_beat_units + dt
                * last.bpm_milli);
        }
        let beat: i128 = last.start_beat_units + add;
        sections.push(BpmSection { start_time_us: p.0, bpm_milli: p.1, start_beat_units: beat });
        proof {
            assert(sections@ =~= sections_from_pairs(sps.take(i + 1)));
        }
        i = i + 1;
    }
    proof {
        assert(sps.take(sps.len() as int) =~= sps);
        lemma_sections_from_pairs_wf(sps);
    }
    sections
}

} // verus!
