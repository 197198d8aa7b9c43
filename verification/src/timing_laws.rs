//! Properties of the beat clock over a well-formed tempo timeline: the
//! timeline is ordered in both coordinates, time-to-beat and beat-to-time
//! are exact mutual inverses, and grid quantization is idempotent and moves
//! a time by at most half a grid step.

use vstd::prelude::*;

use crate::arith::round_div;
use crate::arith::lemma_round_div_error;
use crate::arith::lemma_round_div_exact;
use crate::arith::lemma_round_div_near;
use crate::arith::lemma_round_div_monotone;
use crate::arith::lemma_round_div_nonneg;
use crate::timing::BpmSection;
use crate::timing::BEAT_UNITS_PER_BEAT;
use crate::timing::SNAP_DIVISOR;
use crate::timing::SNAP_TICK_UNITS;
use crate::timing::MAX_BPM_MILLI;
use crate::timing::active_index_by_time;
use crate::timing::active_index_by_beat;
use crate::timing::beat_units_at;
use crate::timing::time_at_beat_units;
use crate::timing::snap_beat_units;
use crate::timing::quantize_spec;
use crate::timing::eff_bpm;
use crate::timing::sections_wf;
use crate::timing::sections_bounded;
use crate::timing::sections_time_sorted;
use crate::timing::sections_beat_sorted;
use crate::timing::lemma_active_time_props;
use crate::timing::lemma_active_beat_props;

verus! {

/// Beat offsets grow at least as fast as start times along a well-formed
/// timeline: between two sections, the beat offset gains at least one beat
/// unit per microsecond (every tempo is at least one milli-bpm).
pub proof fn lemma_beat_offset_growth(ss: Seq<BpmSection>, k1: int, k2: int)
    requires
        sections_wf(ss),
        0 <= k1 <= k2 < ss.len(),
    ensures
        ss[k2].start_beat_units >= ss[k1].start_beat_units + (ss[k2].start_time_us
            - ss[k1].start_time_us),
        ss[k2].start_time_us >= ss[k1].start_time_us,
    decreases k2 - k1,
{
    if k1 < k2 {
        lemma_beat_offset_growth(ss, k1, k2 - 1);
        let dt = ss[k2].start_time_us - ss[k2 - 1].start_time_us;
        assert(dt * ss[k2 - 1].bpm_milli >= dt) by (nonlinear_arith)
            requires
                dt >= 0,
                ss[k2 - 1].bpm_milli >= 1,
        ;
    }
}

/// Beat offsets also gain at most [`MAX_BPM_MILLI`] beat units per
/// microsecond.
pub proof fn lemma_beat_offset_upper(ss: Seq<BpmSection>, k1: int, k2: int)
    requires
        sections_wf(ss),
        0 <= k1 <= k2 < ss.len(),
    ensures
        ss[k2].start_beat_units <= ss[k1].start_beat_units + (ss[k2].start_time_us
            - ss[k1].start_time_us) * MAX_BPM_MILLI,
    decreases k2 - k1,
{
    if k1 < k2 {
        lemma_beat_offset_upper(ss, k1, k2 - 1);
        lemma_beat_offset_growth(ss, k1, k2 - 1);
        let dt = ss[k2].start_time_us - ss[k2 - 1].start_time_us;
        assert(dt * ss[k2 - 1].bpm_milli <= dt * MAX_BPM_MILLI) by (nonlinear_arith)
            requires
                dt >= 0,
                0 <= ss[k2 - 1].bpm_milli <= MAX_BPM_MILLI,
        ;
        assert((ss[k2 - 1].start_time_us - ss[k1].start_time_us) * MAX_BPM_MILLI + dt
            * MAX_BPM_MILLI == (ss[k2].start_time_us - ss[k1].start_time_us) * MAX_BPM_MILLI)
            by (nonlinear_arith)
            requires
                dt == ss[k2].start_time_us - ss[k2 - 1].start_time_us,
        ;
    }
}

/// A well-formed timeline is sorted in both coordinates and bounded.
pub proof fn lemma_wf_sorted(ss: Seq<BpmSection>)
    requires
        sections_wf(ss),
    ensures
        sections_time_sorted(ss),
        sections_beat_sorted(ss),
        sections_bounded(ss),
{
    assert forall|i: int, j: int| 0 <= i <= j < ss.len() implies #[trigger] ss[i].start_time_us
        <= #[trigger] ss[j].start_time_us by {
        lemma_beat_offset_growth(ss, i, j);
    }
    assert forall|i: int, j: int| 0 <= i <= j < ss.len() implies #[trigger] ss[i].start_beat_units
        <= #[trigger] ss[j].start_beat_units by {
        lemma_beat_offset_growth(ss, i, j);
    }
}

/// On a well-formed timeline the effective tempo is the stored tempo.
pub proof fn lemma_wf_eff_bpm(ss: Seq<BpmSection>, i: int)
    requires
        sections_wf(ss),
        0 <= i < ss.len(),
    ensures
        eff_bpm(ss[i]) == ss[i].bpm_milli,
        1 <= eff_bpm(ss[i]) <= MAX_BPM_MILLI,
{
}

/// The beat position at a time `t` covered by section `j` is given by
/// section `j`'s own formula, whichever section the lookup actually lands
/// on: the cumulative beat offsets make the piecewise function agree at
/// every shared boundary.
pub proof fn lemma_beat_formula(ss: Seq<BpmSection>, j: int, t: int)
    requires
        sections_wf(ss),
        0 <= j < ss.len(),
        j == 0 || ss[j].start_time_us <= t,
        j == ss.len() - 1 || t <= ss[j + 1].start_time_us,
    ensures
        beat_units_at(ss, t) == ss[j].start_beat_units + (t - ss[j].start_time_us) * eff_bpm(
            ss[j],
        ),
{
    let i = active_index_by_time(ss, t);
    lemma_active_time_props(ss, t);
    lemma_wf_sorted(ss);
    if i < j {
        // impossible: section j starts at or before t, yet everything past i
        // starts after t
        assert(ss[j].start_time_us > t);
        assert(false);
    } else if i > j {
        // t sits exactly on the shared boundary of sections j+1 ..= i, whose
        // start times (and hence beat offsets) all equal t's
        assert(ss[i].start_time_us <= t);
        assert(ss[j + 1].start_time_us <= ss[i].start_time_us);
        assert(ss[j + 1].start_time_us == t);
        assert(ss[i].start_time_us == t);
        lemma_beat_offset_growth(ss, j + 1, i);
        lemma_beat_offset_upper(ss, j + 1, i);
        assert((ss[i].start_time_us - ss[j + 1].start_time_us) * MAX_BPM_MILLI == 0)
            by (nonlinear_arith)
            requires
                ss[i].start_time_us == ss[j + 1].start_time_us,
        ;
        assert(ss[i].start_beat_units == ss[j + 1].start_beat_units);
        assert((t - ss[i].start_time_us) * eff_bpm(ss[i]) == 0) by (nonlinear_arith)
            requires
                t == ss[i].start_time_us,
        ;
        assert(ss[j + 1].start_beat_units == ss[j].start_beat_units + (ss[j + 1].start_time_us
            - ss[j].start_time_us) * ss[j].bpm_milli);
        lemma_wf_eff_bpm(ss, j);
    } else {
        lemma_wf_eff_bpm(ss, j);
    }
}

/// Converting a time to a beat position and back recovers the time exactly:
/// the beat position is an exact multiple of the active tempo, so the
/// rounded division loses nothing.
pub proof fn lemma_time_beat_round_trip(ss: Seq<BpmSection>, t: int)
    requires
        sections_wf(ss),
    ensures
        time_at_beat_units(ss, beat_units_at(ss, t)) == t,
{
    let i = active_index_by_time(ss, t);
    lemma_active_time_props(ss, t);
    lemma_wf_sorted(ss);
    lemma_wf_eff_bpm(ss, i);
    let bpm = eff_bpm(ss[i]);
    let b = beat_units_at(ss, t);
    let j = active_index_by_beat(ss, b);
    lemma_active_beat_props(ss, b);
    if t >= ss[i].start_time_us {
        assert((t - ss[i].start_time_us) * bpm >= 0) by (nonlinear_arith)
            requires
                t >= ss[i].start_time_us,
                bpm >= 1,
        ;
        assert(ss[i].start_beat_units <= b);
        if j < i {
            assert(ss[i].start_beat_units > b);
            assert(false);
        }
        if i < ss.len() - 1 {
            assert(ss[i + 1].start_time_us > t);
            assert(b <= ss[i + 1].start_beat_units - bpm) by (nonlinear_arith)
                requires
                    b == ss[i].start_beat_units + (t - ss[i].start_time_us) * bpm,
                    ss[i + 1].start_beat_units == ss[i].start_beat_units + (ss[i
                        + 1].start_time_us - ss[i].start_time_us) * bpm,
                    t <= ss[i + 1].start_time_us - 1,
                    bpm >= 1,
            ;
            if j > i {
                assert(ss[i + 1].start_beat_units <= ss[j].start_beat_units);
                assert(ss[j].start_beat_units <= b);
                assert(false);
            }
        }
        assert(j == i);
    } else {
        // t precedes the whole timeline: both lookups land on section 0
        assert(i == 0);
        assert((t - ss[0].start_time_us) * bpm < 0) by (nonlinear_arith)
            requires
                t < ss[0].start_time_us,
                bpm >= 1,
        ;
        assert(b < ss[0].start_beat_units);
        if j > 0 {
            assert(ss[0].start_beat_units <= ss[j].start_beat_units);
            assert(ss[j].start_beat_units <= b);
            assert(false);
        }
        assert(j == i);
    }
    lemma_round_div_exact(t - ss[i].start_time_us, bpm);
    assert((t - ss[i].start_time_us) * bpm == b - ss[i].start_beat_units);
}

/// The time computed for a beat position stays within the active section:
/// at or after the section's start, and at or before the next section's.
pub proof fn lemma_time_at_beat_bracket(ss: Seq<BpmSection>, b: int)
    requires
        sections_wf(ss),
    ensures
        active_index_by_beat(ss, b) > 0 ==> time_at_beat_units(ss, b) >= ss[active_index_by_beat(
            ss,
            b,
        )].start_time_us,
        active_index_by_beat(ss, b) < ss.len() - 1 ==> time_at_beat_units(ss, b) <= ss[
            active_index_by_beat(ss, b) + 1].start_time_us,
{
    let j = active_index_by_beat(ss, b);
    lemma_active_beat_props(ss, b);
    lemma_wf_eff_bpm(ss, j);
    let bpm = eff_bpm(ss[j]);
    if j > 0 {
        lemma_round_div_nonneg(b - ss[j].start_beat_units, bpm);
    }
    if j < ss.len() - 1 {
        let dt = ss[j + 1].start_time_us - ss[j].start_time_us;
        assert(ss[j + 1].start_beat_units == ss[j].start_beat_units + dt * bpm);
        assert(b - ss[j].start_beat_units <= dt * bpm - 1);
        lemma_round_div_monotone(b - ss[j].start_beat_units, dt * bpm, bpm);
        lemma_round_div_exact(dt, bpm);
    }
}

/// Beat-to-time conversion is monotone in the beat position.
pub proof fn lemma_time_at_beat_monotone(ss: Seq<BpmSection>, b1: int, b2: int)
    requires
        sections_wf(ss),
        b1 <= b2,
    ensures
        time_at_beat_units(ss, b1) <= time_at_beat_units(ss, b2),
{
    let j1 = active_index_by_beat(ss, b1);
    let j2 = active_index_by_beat(ss, b2);
    lemma_active_beat_props(ss, b1);
    lemma_active_beat_props(ss, b2);
    lemma_wf_sorted(ss);
    if j1 > j2 {
        assert(ss[j1].start_beat_units <= b1);
        assert(ss[j1].start_beat_units > b2);
        assert(false);
    }
    if j1 == j2 {
        lemma_wf_eff_bpm(ss, j1);
        lemma_round_div_monotone(
            b1 - ss[j1].start_beat_units,
            b2 - ss[j1].start_beat_units,
            eff_bpm(ss[j1]),
        );
    } else {
        lemma_time_at_beat_bracket(ss, b1);
        lemma_time_at_beat_bracket(ss, b2);
        assert(time_at_beat_units(ss, b1) <= ss[j1 + 1].start_time_us);
        assert(ss[j1 + 1].start_time_us <= ss[j2].start_time_us);
        assert(ss[j2].start_time_us <= time_at_beat_units(ss, b2));
    }
}

/// Over a span of time, the beat position advances by at least one beat unit
/// per microsecond (every tempo is at least one milli-bpm).
pub proof fn lemma_beat_slope(ss: Seq<BpmSection>, t1: int, t2: int)
    requires
        sections_wf(ss),
        t1 <= t2,
    ensures
        beat_units_at(ss, t2) - beat_units_at(ss, t1) >= t2 - t1,
{
    let i1 = active_index_by_time(ss, t1);
    let i2 = active_index_by_time(ss, t2);
    lemma_active_time_props(ss, t1);
    lemma_active_time_props(ss, t2);
    lemma_wf_sorted(ss);
    lemma_wf_eff_bpm(ss, i1);
    lemma_wf_eff_bpm(ss, i2);
    if i1 > i2 {
        assert(ss[i1].start_time_us <= t1);
        assert(ss[i1].start_time_us > t2);
        assert(false);
    }
    if i1 == i2 {
        assert((t2 - ss[i1].start_time_us) * eff_bpm(ss[i1]) - (t1 - ss[i1].start_time_us)
            * eff_bpm(ss[i1]) >= t2 - t1) by (nonlinear_arith)
            requires
                t1 <= t2,
                eff_bpm(ss[i1]) >= 1,
        ;
    } else {
        // chain through the section boundaries between t1 and t2
        assert(t1 <= ss[i1 + 1].start_time_us);
        let b1 = beat_units_at(ss, t1);
        assert(ss[i1 + 1].start_beat_units - b1 >= ss[i1 + 1].start_time_us - t1)
            by (nonlinear_arith)
            requires
                b1 == ss[i1].start_beat_units + (t1 - ss[i1].start_time_us) * eff_bpm(ss[i1]),
                ss[i1 + 1].start_beat_units == ss[i1].start_beat_units + (ss[i1
                    + 1].start_time_us - ss[i1].start_time_us) * eff_bpm(ss[i1]),
                t1 <= ss[i1 + 1].start_time_us,
                eff_bpm(ss[i1]) >= 1,
        ;
        lemma_beat_offset_growth(ss, i1 + 1, i2);
        assert(ss[i2].start_time_us <= t2);
        assert(beat_units_at(ss, t2) - ss[i2].start_beat_units >= t2 - ss[i2].start_time_us)
            by (nonlinear_arith)
            requires
                beat_units_at(ss, t2) == ss[i2].start_beat_units + (t2 - ss[i2].start_time_us)
                    * eff_bpm(ss[i2]),
                ss[i2].start_time_us <= t2,
                eff_bpm(ss[i2]) >= 1,
        ;
    }
}

/// Snapping moves a beat position by at most half a grid step.
pub proof fn lemma_snap_error(b: int)
    ensures
        2 * (snap_beat_units(b) - b) <= SNAP_TICK_UNITS,
        -SNAP_TICK_UNITS <= 2 * (snap_beat_units(b) - b),
{
    let d = BEAT_UNITS_PER_BEAT as int;
    let k = round_div(b * SNAP_DIVISOR, d);
    lemma_round_div_error(b * SNAP_DIVISOR, d);
    assert(2 * (k * (SNAP_TICK_UNITS as int) - b) * 192 == 2 * (k * d - b * SNAP_DIVISOR))
        by (nonlinear_arith)
        requires
            d == 192 * (SNAP_TICK_UNITS as int),
            SNAP_DIVISOR as int == 192,
    ;
    assert(2 * (snap_beat_units(b) - b) * 192 <= 192 * (SNAP_TICK_UNITS as int));
    assert(-(192 * (SNAP_TICK_UNITS as int)) <= 2 * (snap_beat_units(b) - b) * 192);
}

/// Quantization moves a time by at most half a grid step's worth of
/// microseconds at the slowest representable tempo, plus the final rounding
/// microsecond.
pub proof fn lemma_quantize_near(ss: Seq<BpmSection>, t: int)
    requires
        sections_wf(ss),
    ensures
        t - (SNAP_TICK_UNITS / 2 + 1) <= quantize_spec(ss, t) <= t + SNAP_TICK_UNITS / 2 + 1,
{
    let b = beat_units_at(ss, t);
    let bq = snap_beat_units(b);
    lemma_snap_error(b);
    let half = SNAP_TICK_UNITS / 2;
    lemma_beat_slope(ss, t, t + half + 1);
    lemma_beat_slope(ss, t - half - 1, t);
    lemma_time_at_beat_monotone(ss, bq, beat_units_at(ss, t + half + 1));
    lemma_time_at_beat_monotone(ss, beat_units_at(ss, t - half - 1), bq);
    lemma_time_beat_round_trip(ss, t + half + 1);
    lemma_time_beat_round_trip(ss, t - half - 1);
}

/// Converting a beat position to a time and back lands within half the
/// active tempo of the original position: the time was rounded to a whole
/// microsecond, and one microsecond spans `bpm_milli` beat units. In time
/// terms the round trip is off by at most half a microsecond.
pub proof fn lemma_beat_time_round_trip(ss: Seq<BpmSection>, b: int)
    requires
        sections_wf(ss),
    ensures
        2 * (beat_units_at(ss, time_at_beat_units(ss, b)) - b) <= MAX_BPM_MILLI,
        -MAX_BPM_MILLI <= 2 * (beat_units_at(ss, time_at_beat_units(ss, b)) - b),
{
    let j = active_index_by_beat(ss, b);
    lemma_active_beat_props(ss, b);
    lemma_wf_eff_bpm(ss, j);
    let bpm = eff_bpm(ss[j]);
    let t = time_at_beat_units(ss, b);
    let dq = round_div(b - ss[j].start_beat_units, bpm);
    lemma_time_at_beat_bracket(ss, b);
    if j > 0 {
        lemma_round_div_nonneg(b - ss[j].start_beat_units, bpm);
    }
    lemma_beat_formula(ss, j, t);
    lemma_round_div_error(b - ss[j].start_beat_units, bpm);
    assert(beat_units_at(ss, t) == ss[j].start_beat_units + dq * bpm);
}

/// Quantization is idempotent: quantizing an already-quantized time returns
/// it unchanged.
pub proof fn lemma_quantize_idempotent(ss: Seq<BpmSection>, t: int)
    requires
        sections_wf(ss),
    ensures
        quantize_spec(ss, quantize_spec(ss, t)) == quantize_spec(ss, t),
{
    let d = BEAT_UNITS_PER_BEAT as int;
    let tick = SNAP_TICK_UNITS as int;
    let b = beat_units_at(ss, t);
    let k = round_div(b * SNAP_DIVISOR, d);
    let bq = snap_beat_units(b);
    assert(bq == k * tick);
    let q1 = quantize_spec(ss, t);
    assert(q1 == time_at_beat_units(ss, bq));
    let j = active_index_by_beat(ss, bq);
    lemma_active_beat_props(ss, bq);
    lemma_wf_eff_bpm(ss, j);
    let bpm = eff_bpm(ss[j]);
    let dq = round_div(bq - ss[j].start_beat_units, bpm);
    lemma_time_at_beat_bracket(ss, bq);
    if j > 0 {
        lemma_round_div_nonneg(bq - ss[j].start_beat_units, bpm);
    }
    lemma_beat_formula(ss, j, q1);
    let b1 = beat_units_at(ss, q1);
    assert(b1 == ss[j].start_beat_units + dq * bpm);
    lemma_round_div_error(bq - ss[j].start_beat_units, bpm);
    let e = b1 - bq;
    assert(2 * e <= bpm && -bpm <= 2 * e);
    // the second snap sees a beat within half a tick of the grid line k
    assert(b1 * SNAP_DIVISOR == k * d + e * SNAP_DIVISOR) by (nonlinear_arith)
        requires
            b1 == bq + e,
            bq == k * tick,
            d == 192 * tick,
            SNAP_DIVISOR as int == 192,
    ;
    assert(2 * (e * SNAP_DIVISOR) < d && -d < 2 * (e * SNAP_DIVISOR)) by (nonlinear_arith)
        requires
            2 * e <= bpm,
            -bpm <= 2 * e,
            1 <= bpm <= MAX_BPM_MILLI,
            SNAP_DIVISOR as int == 192,
            d == 60_000_000_000,
    ;
    lemma_round_div_near(k, e * SNAP_DIVISOR, d);
    assert(round_div(b1 * SNAP_DIVISOR, d) == k);
    assert(snap_beat_units(b1) == bq);
}

} // verus!
