//! Plain-value chart data as the pipeline consumes it: raw timing points and
//! raw notes with integer microsecond times, produced by an external chart
//! decoder.

use vstd::prelude::*;

use crate::timing::MAX_BPM_MILLI;
use crate::timing::MAX_TIME_US;

verus! {

/// A raw timing record from a chart. Only non-inherited points with a
/// positive tempo participate in tempo derivation.
#[derive(Debug, Clone, Copy, PartialEq, Eq, Structural)]
pub struct TimingPoint {
    /// Time in microseconds.
    pub time_us: i64,
    /// Beats per minute, in thousandths.
    pub bpm_milli: u32,
    /// An inherited point changes scroll speed only and carries no tempo.
    pub is_inherited: bool,
    /// Beats per measure, when the chart states one.
    pub signature: Option<u32>,
}

/// A raw note: one keypress event, not yet merged with simultaneous notes.
#[derive(Debug, Clone, Copy, PartialEq, Eq, Structural)]
pub struct RawNote {
    /// Time in microseconds.
    pub time_us: i64,
    /// Column index, starting at zero.
    pub column: u8,
}

/// A decoded chart: timing points, notes, and the lane count.
#[derive(Debug, Clone)]
pub struct Chart {
    pub timing_points: Vec<TimingPoint>,
    pub notes: Vec<RawNote>,
    pub key_count: u32,
    /// Chart title, unused by the pipeline.
    pub title: String,
}

/// Whether a timing point participates in tempo derivation.
pub open spec fn timing_point_valid(p: TimingPoint) -> bool {
    !p.is_inherited && p.bpm_milli > 0
}

/// Machine-limit bounds on one timing point.
pub open spec fn timing_point_bounded(p: TimingPoint) -> bool {
    &&& -MAX_TIME_US <= p.time_us <= MAX_TIME_US
    &&& p.bpm_milli <= MAX_BPM_MILLI
}

/// Machine-limit bounds on one raw note: a bounded time, and a column that
/// fits a 32-bit column mask.
pub open spec fn raw_note_bounded(n: RawNote) -> bool {
    &&& -MAX_TIME_US <= n.time_us <= MAX_TIME_US
    &&& n.column < 32
}

/// Machine-limit bounds on a whole chart.
pub open spec fn chart_bounded(c: Chart) -> bool {
    &&& forall|i: int|
        0 <= i < c.timing_points@.len() ==> timing_point_bounded(#[trigger] c.timing_points@[i])
    &&& forall|i: int| 0 <= i < c.notes@.len() ==> raw_note_bounded(#[trigger] c.notes@[i])
}

/// Tests whether a chart lies within the machine limits that the conversion
/// pipeline requires: callers that receive a chart from an untrusted decoder
/// check it with this before converting.
pub fn chart_in_bounds(c: &Chart) -> (r: bool)
    ensures
        r == chart_bounded(*c),
{
    let mut i: usize = 0;
    while i < c.timing_points.len()
        invariant
            i <= c.timing_points@.len(),
            forall|k: int|
                0 <= k < i ==> timing_point_bounded(#[trigger] c.timing_points@[k]),
        decreases c.timing_points@.len() - i,
    {
        let p = c.timing_points[i];
        if p.time_us < -MAX_TIME_US || p.time_us > MAX_TIME_US || p.bpm_milli > MAX_BPM_MILLI {
            return false;
        }
        i = i + 1;
    }
    let mut i: usize = 0;
    while i < c.notes.len()
        invariant
            i <= c.notes@.len(),
            forall|k: int| 0 <= k < i ==> raw_note_bounded(#[trigger] c.notes@[k]),
            forall|k: int|
                0 <= k < c.timing_points@.len() ==> timing_point_bounded(
                    #[trigger] c.timing_points@[k],
                ),
        decreases c.notes@.len() - i,
    {
        let n = c.notes[i];
        if n.time_us < -MAX_TIME_US || n.time_us > MAX_TIME_US || n.column >= 32 {
            return false;
        }
        i = i + 1;
    }
    true
}

} // verus!
