//! The canonical note: a column bitmask at a time, plus the map model that
//! the merge step is specified against, and note-stream validation.

use vstd::prelude::*;

use crate::error::RoxError;

verus! {

/// A canonical note: the set of columns struck together at one time.
#[derive(Debug, Clone, Copy, PartialEq, Eq, Structural)]
pub struct Note {
    /// Column bitmask: bit `c` is set when column `c` has a note here.
    pub notes: u32,
    /// Row time in microseconds (after rate scaling).
    pub row_time_us: i64,
}

/// A valid canonical note strikes at least one column at a nonnegative time.
pub open spec fn note_valid(n: Note) -> bool {
    n.notes != 0 && n.row_time_us >= 0
}

/// A note stream is strictly ordered by time (so times are distinct).
pub open spec fn notes_strictly_sorted(s: Seq<Note>) -> bool {
    forall|i: int, j: int|
        0 <= i < j < s.len() ==> #[trigger] s[i].row_time_us < #[trigger] s[j].row_time_us
}

/// The time-to-mask mapping a note stream represents.
pub open spec fn notes_as_map(s: Seq<Note>) -> Map<int, u32>
    decreases s.len(),
{
    if s.len() == 0 {
        Map::empty()
    } else {
        notes_as_map(s.drop_last()).insert(s.last().row_time_us as int, s.last().notes)
    }
}

/// For a strictly sorted stream, the map holds exactly the stream's times,
/// each carrying that note's mask.
pub proof fn lemma_notes_map_props(s: Seq<Note>)
    requires
        notes_strictly_sorted(s),
    ensures
        forall|j: int|
            0 <= j < s.len() ==> notes_as_map(s).dom().contains(
                (#[trigger] s[j]).row_time_us as int,
            ) && notes_as_map(s)[s[j].row_time_us as int] == s[j].notes,
        forall|t: int|
            #[trigger] notes_as_map(s).dom().contains(t) ==> exists|j: int|
                0 <= j < s.len() && (#[trigger] s[j]).row_time_us == t,
    decreases s.len(),
{
    if s.len() > 0 {
        let d = s.drop_last();
        assert(notes_strictly_sorted(d)) by {
            assert(forall|k: int| 0 <= k < d.len() ==> #[trigger] d[k] == s[k]);
        }
        lemma_notes_map_props(d);
        assert forall|j: int| 0 <= j < s.len() implies notes_as_map(s).dom().contains(
            (#[trigger] s[j]).row_time_us as int,
        ) && notes_as_map(s)[s[j].row_time_us as int] == s[j].notes by {
            if j < s.len() - 1 {
                assert(d[j] == s[j]);
                // the last note's time is strictly larger, so the final
                // insert does not disturb this entry
                assert(s[j].row_time_us < s[s.len() - 1].row_time_us);
            }
        }
        assert forall|t: int| #[trigger] notes_as_map(s).dom().contains(t) implies exists|j: int|
            0 <= j < s.len() && (#[trigger] s[j]).row_time_us == t by {
            if t == s.last().row_time_us as int {
                assert(s[s.len() - 1].row_time_us == t);
            } else {
                assert(notes_as_map(d).dom().contains(t));
                let j = choose|j: int| 0 <= j < d.len() && (#[trigger] d[j]).row_time_us == t;
                assert(s[j].row_time_us == t);
            }
        }
    }
}

/// Inserting a note with a fresh time anywhere in a strictly sorted stream
/// inserts its entry into the map.
pub proof fn lemma_notes_map_insert(s: Seq<Note>, k: int, n: Note)
    requires
        notes_strictly_sorted(s),
        0 <= k <= s.len(),
        forall|j: int| 0 <= j < s.len() ==> (#[trigger] s[j]).row_time_us != n.row_time_us,
    ensures
        notes_as_map(s.insert(k, n)) =~= notes_as_map(s).insert(n.row_time_us as int, n.notes),
    decreases s.len(),
{
    if k == s.len() {
        assert(s.insert(k, n).drop_last() =~= s);
        assert(s.insert(k, n).last() == n);
    } else {
        let d = s.drop_last();
        assert(notes_strictly_sorted(d)) by {
            assert(forall|j: int| 0 <= j < d.len() ==> #[trigger] d[j] == s[j]);
        }
        assert(forall|j: int|
            0 <= j < d.len() ==> (#[trigger] d[j]).row_time_us != n.row_time_us);
        lemma_notes_map_insert(d, k, n);
        assert(s.insert(k, n).drop_last() =~= d.insert(k, n));
        assert(s.insert(k, n).last() == s.last());
        // the two inserted keys differ, so the inserts commute
        assert(notes_as_map(s.insert(k, n)) =~= notes_as_map(d).insert(
            n.row_time_us as int,
            n.notes,
        ).insert(s.last().row_time_us as int, s.last().notes));
    }
}

/// Replacing the mask of one note of a strictly sorted stream overwrites its
/// entry in the map.
pub proof fn lemma_notes_map_update(s: Seq<Note>, k: int, m: u32)
    requires
        notes_strictly_sorted(s),
        0 <= k < s.len(),
    ensures
        notes_as_map(s.update(k, Note { notes: m, row_time_us: s[k].row_time_us })) =~=
            notes_as_map(s).insert(s[k].row_time_us as int, m),
    decreases s.len(),
{
    let n = Note { notes: m, row_time_us: s[k].row_time_us };
    if k == s.len() - 1 {
        assert(s.update(k, n).drop_last() =~= s.drop_last());
        assert(s.update(k, n).last() == n);
    } else {
        let d = s.drop_last();
        assert(notes_strictly_sorted(d)) by {
            assert(forall|j: int| 0 <= j < d.len() ==> #[trigger] d[j] == s[j]);
        }
        lemma_notes_map_update(d, k, m);
        assert(s.update(k, n).drop_last() =~= d.update(k, n));
        assert(s.update(k, n).last() == s.last());
        assert(s[k].row_time_us < s.last().row_time_us);
    }
}

/// Validates a note stream: it must be nonempty, and every note must strike
/// a column at a nonnegative time. Reports the first invalid note.
pub fn validate_notes(notes: &Vec<Note>) -> (r: Result<(), RoxError>)
    ensures
        r is Ok <==> notes@.len() > 0 && forall|j: int|
            0 <= j < notes@.len() ==> note_valid(#[trigger] notes@[j]),
        r == Err::<(), RoxError>(RoxError::NoNotes) <==> notes@.len() == 0,
        r matches Err(e) ==> e is NoNotes || e is InvalidNote,
        r matches Err(RoxError::InvalidNote(i)) ==> 0 <= i < notes@.len() && !note_valid(
            notes@[i as int],
        ) && forall|j: int| 0 <= j < i ==> note_valid(#[trigger] notes@[j]),
{
    if notes.len() == 0 {
        return Err(RoxError::NoNotes);
    }
    let mut i: usize = 0;
    while i < notes.len()
        invariant
            i <= notes.len(),
            forall|j: int| 0 <= j < i ==> note_valid(#[trigger] notes@[j]),
        decreases notes.len() - i,
    {
        let n = notes[i];
        if n.notes == 0 || n.row_time_us < 0 {
            return Err(RoxError::InvalidNote(i));
        }
        i = i + 1;
    }
    Ok(())
}

} // verus!
