//! Converts a chart's raw notes into the canonical note stream: each note is
//! quantized to the 1/192-beat grid, rate-scaled in the integer-microsecond
//! domain, merged with simultaneous notes into one column bitmask, and the
//! stream is sorted and validated.

use vstd::prelude::*;

use crate::arith::trunc_div;
use crate::arith::lemma_trunc_div_exact;
use crate::arith::lemma_trunc_div_magnitude;
use crate::arith::trunc_div_i128;
use crate::chart::Chart;
use crate::chart::RawNote;
use crate::chart::chart_bounded;
use crate::chart::raw_note_bounded;
use crate::error::RoxError;
use crate::notes::Note;
use crate::notes::note_valid;
use crate::notes::notes_strictly_sorted;
use crate::notes::notes_as_map;
use crate::notes::lemma_notes_map_props;
use crate::notes::lemma_notes_map_insert;
use crate::notes::lemma_notes_map_update;
use crate::notes::validate_notes;
use crate::timing::BpmSection;
use crate::timing::quantize_spec;
use crate::timing::quantize_adaptive;
use crate::timing::sections_from_pairs;
use crate::timing::sorted_valid_pairs;
use crate::timing::sections_wf;
use crate::timing::extract_bpm_sections_from_chart;
use crate::timing_laws::lemma_wf_sorted;
use crate::timing_laws::lemma_quantize_near;

verus! {

/// The column bitmask of a single raw note.
pub open spec fn note_mask(column: u8) -> u32 {
    if column < 32 {
        1u32 << (column as u32)
    } else {
        0u32
    }
}

/// The canonical time of a raw note at time `t`: quantized to the grid, then
/// divided by the playback rate in the integer-microsecond domain.
pub open spec fn scaled_note_time(ss: Seq<BpmSection>, rate_milli: int, t: int) -> int {
    trunc_div(quantize_spec(ss, t) * 1000, rate_milli)
}

/// The merged time-to-bitmask mapping of a sequence of raw notes: notes that
/// scale to the same time combine their masks by bitwise or.
pub open spec fn merged_masks(ss: Seq<BpmSection>, rate_milli: int, raw: Seq<RawNote>) -> Map<
    int,
    u32,
>
    decreases raw.len(),
{
    if raw.len() == 0 {
        Map::empty()
    } else {
        let m = merged_masks(ss, rate_milli, raw.drop_last());
        let n = raw.last();
        let t = scaled_note_time(ss, rate_milli, n.time_us as int);
        let prev = if m.dom().contains(t) {
            m[t]
        } else {
            0u32
        };
        m.insert(t, prev | note_mask(n.column))
    }
}

/// The tempo timeline a chart induces.
pub open spec fn chart_sections(c: Chart) -> Seq<BpmSection> {
    sections_from_pairs(sorted_valid_pairs(c.timing_points@))
}

/// The merged mapping a chart induces at a playback rate.
pub open spec fn chart_merged(c: Chart, rate_milli: int) -> Map<int, u32> {
    merged_masks(chart_sections(c), rate_milli, c.notes@)
}

/// The playback rate actually used: the given one, or 1000 (1.0x).
pub open spec fn effective_rate(rate_milli: Option<i64>) -> int {
    match rate_milli {
        Some(r) => r as int,
        None => 1000,
    }
}

/// Binary search for a row time in a strictly sorted note stream: the index
/// holding it, or the position where it belongs.
fn find_time_slot(v: &Vec<Note>, t: i64) -> (r: (usize, bool))
    requires
        notes_strictly_sorted(v@),
    ensures
        r.1 ==> r.0 < v@.len() && v@[r.0 as int].row_time_us == t,
        !r.1 ==> r.0 <= v@.len() && (forall|j: int|
            0 <= j < r.0 ==> (#[trigger] v@[j]).row_time_us < t) && (forall|j: int|
            r.0 <= j < v@.len() ==> (#[trigger] v@[j]).row_time_us > t),
{
    let mut lo: usize = 0;
    let mut hi: usize = v.len();
    while lo < hi
        invariant
            lo <= hi <= v@.len(),
            forall|j: int| 0 <= j < lo ==> (#[trigger] v@[j]).row_time_us < t,
            forall|j: int| hi <= j < v@.len() ==> (#[trigger] v@[j]).row_time_us >= t,
            notes_strictly_sorted(v@),
        decreases hi - lo,
    {
        let mid = lo + (hi - lo) / 2;
        if v[mid].row_time_us < t {
            lo = mid + 1;
        } else {
            hi = mid;
        }
    }
    if lo < v.len() && v[lo].row_time_us == t {
        (lo, true)
    } else {
        proof {
            assert forall|j: int| lo <= j < v@.len() implies (#[trigger] v@[j]).row_time_us
                > t by {
                if j > lo {
                    assert(v@[lo as int].row_time_us < v@[j].row_time_us);
                }
            }
        }
        (lo, false)
    }
}


/// Merges one scaled note into a strictly sorted stream: the mask is or-ed
/// into the entry at its time, or a new entry is inserted in order.
fn merge_note(merged: &mut Vec<Note>, scaled: i64, mask: u32)
    requires
        notes_strictly_sorted(old(merged)@),
        forall|k: int| 0 <= k < old(merged)@.len() ==> (#[trigger] old(merged)@[k]).notes != 0,
        mask != 0,
    ensures
        notes_strictly_sorted(final(merged)@),
        forall|k: int| 0 <= k < final(merged)@.len() ==> (#[trigger] final(merged)@[k]).notes
            != 0,
        ({
            let m = notes_as_map(old(merged)@);
            let prev = if m.dom().contains(scaled as int) {
                m[scaled as int]
            } else {
                0u32
            };
            notes_as_map(final(merged)@) == m.insert(scaled as int, prev | mask)
        }),
{
    let ghost old_merged = merged@;
    let ghost mprev = notes_as_map(merged@);
    let (idx, found) = find_time_slot(merged, scaled);
    if found {
        let cur = merged[idx].notes;
        proof {
            lemma_notes_map_props(old_merged);
            assert(mprev.dom().contains(scaled as int));
            assert(mprev[scaled as int] == cur);
            assert(cur | mask != 0) by (bit_vector)
                requires
                    cur != 0,
            ;
            lemma_notes_map_update(old_merged, idx as int, cur | mask);
        }
        merged[idx] = Note { notes: cur | mask, row_time_us: scaled };
        proof {
            assert(merged@ =~= old_merged.update(
                idx as int,
                Note { notes: cur | mask, row_time_us: old_merged[idx as int].row_time_us },
            ));
            assert forall|a: int, b: int| 0 <= a < b < merged@.len() implies (
            #[trigger] merged@[a]).row_time_us < (#[trigger] merged@[b]).row_time_us by {
                assert(old_merged[a].row_time_us < old_merged[b].row_time_us);
            }
        }
    } else {
        proof {
            lemma_notes_map_props(old_merged);
            if mprev.dom().contains(scaled as int) {
                let j = choose|j: int|
                    0 <= j < old_merged.len() && (#[trigger] old_merged[j]).row_time_us
                        == scaled as int;
                assert(false);
            }
            assert(forall|j: int|
                0 <= j < old_merged.len() ==> (#[trigger] old_merged[j]).row_time_us != scaled);
            lemma_notes_map_insert(old_merged, idx as int, Note { notes: mask, row_time_us: scaled });
            assert(0u32 | mask == mask) by (bit_vector);
        }
        merged.insert(idx, Note { notes: mask, row_time_us: scaled });
        proof {
            assert forall|a: int, b: int| 0 <= a < b < merged@.len() implies (
            #[trigger] merged@[a]).row_time_us < (#[trigger] merged@[b]).row_time_us by {
                if b < idx {
                } else if a > idx {
                    assert(merged@[a] == old_merged[a - 1] && merged@[b] == old_merged[b - 1]);
                } else if a < idx && b == idx {
                    assert(merged@[a] == old_merged[a]);
                } else if a < idx && b > idx {
                    assert(merged@[a] == old_merged[a] && merged@[b] == old_merged[b - 1]);
                } else if a == idx && b > idx {
                    assert(merged@[b] == old_merged[b - 1]);
                }
            }
        }
    }
}


/// Quantizes and rate-scales one raw note, and computes its column mask.
fn scale_note(n: RawNote, sections: &Vec<BpmSection>, rate: i64) -> (r: (i64, u32))
    requires
        sections_wf(sections@),
        raw_note_bounded(n),
        rate >= 1,
    ensures
        r.0 as int == scaled_note_time(sections@, rate as int, n.time_us as int),
        r.1 == note_mask(n.column),
        r.1 != 0,
{
    proof {
        lemma_wf_sorted(sections@);
    }
    let q = quantize_adaptive(n.time_us, sections);
    proof {
        lemma_quantize_near(sections@, n.time_us as int);
        assert(q == quantize_spec(sections@, n.time_us as int));
    }
    let q_milli: i64 = q * 1000;
    let scaled_wide: i128 = trunc_div_i128(q_milli as i128, rate as i128);
    proof {
        lemma_trunc_div_magnitude(q_milli as int, rate as int);
    }
    let scaled: i64 = scaled_wide as i64;
    let sh: u32 = n.column as u32;
    let mask: u32 = 1u32 << sh;
    proof {
        assert(mask != 0) by (bit_vector)
            requires
                mask == 1u32 << sh,
                sh < 32,
        ;
    }
    (scaled, mask)
}

/// Converts a chart to canonical notes at an optional playback rate (in
/// thousandths; 1000 is 1.0x).
///
/// Each raw note is snapped to the 1/192-beat grid of the chart's tempo
/// timeline, its time divided by the rate, and notes landing on the same
/// time are merged into one column bitmask. The result is strictly ordered
/// by time. Fails with `InvalidRate` for a non-positive rate, `NoNotes` for
/// an empty note list, and `InvalidNote` when a merged note has a negative
/// time (its index is reported; the stream is sorted, so it is the first).
#[verifier::rlimit(100)]
pub fn chart_to_notes(chart: &Chart, rate_milli: Option<i64>) -> (r: Result<Vec<Note>, RoxError>)
    requires
        chart_bounded(*chart),
    ensures
        effective_rate(rate_milli) <= 0 <==> r == Err::<Vec<Note>, RoxError>(
            RoxError::InvalidRate(effective_rate(rate_milli) as i64),
        ),
        effective_rate(rate_milli) > 0 && chart.notes@.len() == 0 <==> r == Err::<
            Vec<Note>,
            RoxError,
        >(RoxError::NoNotes),
        r is Ok <==> effective_rate(rate_milli) > 0 && chart.notes@.len() > 0 && (forall|t: int|
            #[trigger] chart_merged(*chart, effective_rate(rate_milli)).dom().contains(t) ==> t
                >= 0),
        effective_rate(rate_milli) > 0 && chart.notes@.len() > 0 && (exists|t: int|
            #[trigger] chart_merged(*chart, effective_rate(rate_milli)).dom().contains(t) && t
                < 0) <==> r == Err::<Vec<Note>, RoxError>(RoxError::InvalidNote(0)),
        r matches Ok(v) ==> v@.len() > 0,
        r matches Ok(v) ==> notes_strictly_sorted(v@),
        r matches Ok(v) ==> notes_as_map(v@) == chart_merged(*chart, effective_rate(rate_milli)),
        r matches Ok(v) ==> forall|j: int| 0 <= j < v@.len() ==> note_valid(#[trigger] v@[j]),
{
    let rate: i64 = match rate_milli {
        Some(r) => r,
        None => 1000,
    };
    if rate <= 0 {
        return Err(RoxError::InvalidRate(rate));
    }

    let sections = extract_bpm_sections_from_chart(chart);
    proof {
        lemma_wf_sorted(sections@);
    }

    let ghost ss = sections@;
    let ghost raws = chart.notes@;
    let mut merged: Vec<Note> = Vec::new();
    let mut i: usize = 0;
    while i < chart.notes.len()
        invariant
            i <= raws.len(),
            raws == chart.notes@,
            ss == sections@,
            ss == chart_sections(*chart),
            sections_wf(ss),
            chart_bounded(*chart),
            rate > 0,
            notes_strictly_sorted(merged@),
            notes_as_map(merged@) == merged_masks(ss, rate as int, raws.take(i as int)),
            forall|k: int| 0 <= k < merged@.len() ==> (#[trigger] merged@[k]).notes != 0,
        decreases raws.len() - i,
    {
        let n = chart.notes[i];
        proof {
            assert(raw_note_bounded(chart.notes@[i as int]));
        }
        let (scaled, mask) = scale_note(n, &sections, rate);
        merge_note(&mut merged, scaled, mask);
        proof {
            assert(raws.take(i + 1).drop_last() =~= raws.take(i as int));
            assert(raws.take(i + 1).last() == raws[i as int]);
            assert(notes_as_map(merged@) =~= merged_masks(ss, rate as int, raws.take(i + 1)));
        }
        i = i + 1;
    }
    proof {
        assert(raws.take(raws.len() as int) =~= raws);
    }

    proof {
        if raws.len() > 0 && merged@.len() == 0 {
            assert(merged_masks(ss, rate as int, raws).dom().contains(
                scaled_note_time(ss, rate as int, raws.last().time_us as int),
            ));
            assert(notes_as_map(merged@) =~= Map::<int, u32>::empty());
            assert(false);
        }
        if merged@.len() > 0 && raws.len() == 0 {
            assert(notes_as_map(merged@).dom().contains(merged@.last().row_time_us as int));
            assert(merged_masks(ss, rate as int, raws) =~= Map::<int, u32>::empty());
            assert(false);
        }
    }
    if merged.len() == 0 {
        return Err(RoxError::NoNotes);
    }
    proof {
        lemma_notes_map_props(merged@);
    }

    match validate_notes(&merged) {
        Ok(()) => {
            proof {
                let m = chart_merged(*chart, rate as int);
                assert forall|t: int| #[trigger] m.dom().contains(t) implies t >= 0 by {
                    let j = choose|j: int|
                        0 <= j < merged@.len() && (#[trigger] merged@[j]).row_time_us == t;
                    assert(note_valid(merged@[j]));
                }
                assert(!(exists|t: int| #[trigger] m.dom().contains(t) && t < 0));
            }
            Ok(merged)
        },
        Err(RoxError::InvalidNote(ix)) => {
            proof {
                // every mask is nonzero, so the first invalid note has a
                // negative time; the stream is sorted, so it is note 0
                assert(!note_valid(merged@[ix as int]));
                assert(merged@[ix as int].row_time_us < 0);
                if ix > 0 {
                    assert(merged@[0].row_time_us < merged@[ix as int].row_time_us);
                    assert(note_valid(merged@[0]));
                    assert(false);
                }
                let m = chart_merged(*chart, rate as int);
                let t0 = merged@[0].row_time_us as int;
                assert(m.dom().contains(t0));
                assert(m.dom().contains(t0) && t0 < 0);
                assert(exists|t: int| #[trigger] m.dom().contains(t) && t < 0);
                assert(m == chart_merged(*chart, effective_rate(rate_milli)));
            }
            Err(RoxError::InvalidNote(ix))
        },
        Err(e) => {
            proof {
                assert(false);
            }
            Err(e)
        },
    }
}

/// Merge correctness: two raw notes whose times quantize and scale to the
/// same canonical time yield exactly one entry, carrying both columns'
/// bits.
pub proof fn lemma_merge_two_simultaneous(
    ss: Seq<BpmSection>,
    rate_milli: int,
    n1: RawNote,
    n2: RawNote,
)
    requires
        scaled_note_time(ss, rate_milli, n1.time_us as int) == scaled_note_time(
            ss,
            rate_milli,
            n2.time_us as int,
        ),
    ensures
        ({
            let t = scaled_note_time(ss, rate_milli, n1.time_us as int);
            let m = merged_masks(ss, rate_milli, seq![n1, n2]);
            &&& m.dom() =~= set![t]
            &&& m[t] == note_mask(n1.column) | note_mask(n2.column)
        }),
{
    let t = scaled_note_time(ss, rate_milli, n1.time_us as int);
    let two = seq![n1, n2];
    assert(two.drop_last() =~= seq![n1]);
    assert(seq![n1].drop_last() =~= Seq::<RawNote>::empty());
    assert(merged_masks(ss, rate_milli, Seq::<RawNote>::empty()) =~= Map::<int, u32>::empty());
    let m1 = merged_masks(ss, rate_milli, seq![n1]);
    assert(seq![n1].last() == n1);
    assert(!Map::<int, u32>::empty().dom().contains(t));
    assert(m1 =~= Map::<int, u32>::empty().insert(t, 0u32 | note_mask(n1.column)));
    let m = merged_masks(ss, rate_milli, two);
    assert(m =~= m1.insert(t, m1[t] | note_mask(n2.column)));
    let m1v = note_mask(n1.column);
    let m2v = note_mask(n2.column);
    assert((0u32 | m1v) | m2v == m1v | m2v) by (bit_vector);
    assert(m.dom() =~= set![t]);
}

/// Rate scaling is linear: scaling at rate `r` equals scaling at rate 1000
/// (1.0x) and then dividing the resulting time by `r` in the
/// integer-microsecond domain.
pub proof fn lemma_rate_scaling_linear(ss: Seq<BpmSection>, rate_milli: int, t: int)
    requires
        rate_milli >= 1,
    ensures
        scaled_note_time(ss, rate_milli, t) == trunc_div(
            scaled_note_time(ss, 1000, t) * 1000,
            rate_milli,
        ),
{
    lemma_trunc_div_exact(quantize_spec(ss, t), 1000);
}

} // verus!
