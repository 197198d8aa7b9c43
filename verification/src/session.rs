//! The calculator session: a thread-confined handle to the external scoring
//! engine, modeled as an explicit state machine. The session validates every
//! request before the engine is invoked (fail fast, no partial calls) and
//! validates every returned score afterward; the caller performs the actual
//! foreign call and feeds the result back.

use vstd::prelude::*;

use crate::chart::Chart;
use crate::chart::chart_bounded;
use crate::convert::chart_to_notes;
use crate::convert::chart_merged;
use crate::convert::effective_rate;
use crate::error::MinaCalcError;
use crate::error::MinaCalcResult;
use crate::error::RoxError;
use crate::notes::Note;
use crate::notes::note_valid;
use crate::notes::notes_as_map;
use crate::notes::notes_strictly_sorted;

verus! {

/// Lifecycle of the native engine handle owned by one worker thread.
#[derive(Debug, Clone, Copy, PartialEq, Eq, Structural)]
pub enum SessionState {
    /// No handle has been created yet.
    Uninitialized,
    /// The handle is live and reusable for all calls on this thread.
    Initialized,
    /// The handle has been torn down; no operation may follow.
    Destroyed,
}

/// A validated engine invocation at one playback rate: everything the
/// engine's rate-scoped entry point takes besides the note array itself.
#[derive(Debug, Clone, Copy, PartialEq, Eq, Structural)]
pub struct RateCall {
    /// Playback rate in thousandths (1000 is 1.0x).
    pub music_rate_milli: i64,
    /// Score goal in thousandths (only meaningful when capped).
    pub score_goal_milli: i64,
    /// Lane count of the chart.
    pub key_count: u32,
    /// Capped (SSR) or uncapped (MSD) scoring.
    pub capped: bool,
}

/// A validated engine invocation covering all fourteen rates.
#[derive(Debug, Clone, Copy, PartialEq, Eq, Structural)]
pub struct AllRatesCall {
    /// Lane count of the chart.
    pub key_count: u32,
    /// Capped (SSR) or uncapped (MSD) scoring.
    pub capped: bool,
}

/// A key count the engine supports.
pub open spec fn key_count_supported(kc: u32) -> bool {
    kc == 4 || kc == 6 || kc == 7
}

/// A score goal acceptable for capped scoring: within (0, 1], in
/// thousandths.
pub open spec fn score_goal_ok(goal_milli: int) -> bool {
    0 < goal_milli <= 1000
}

/// Every note of a stream strikes at least one column at a nonnegative
/// time.
pub open spec fn notes_all_valid(notes: Seq<Note>) -> bool {
    forall|j: int| 0 <= j < notes.len() ==> note_valid(#[trigger] notes[j])
}

/// The four input checks of a rate-scoped request, in the order they are
/// made: notes present, positive rate, goal within (0, 1] when capped, and
/// a supported key count.
pub open spec fn rate_inputs_ok(
    notes: Seq<Note>,
    rate_milli: int,
    goal_milli: int,
    key_count: u32,
    capped: bool,
) -> bool {
    &&& notes.len() > 0
    &&& rate_milli > 0
    &&& !capped || score_goal_ok(goal_milli)
    &&& key_count_supported(key_count)
}

/// The input checks of an all-rates request: notes present and a supported
/// key count (the engine's batch entry point fixes the rates itself).
pub open spec fn all_rates_inputs_ok(notes: Seq<Note>, key_count: u32) -> bool {
    notes.len() > 0 && key_count_supported(key_count)
}

/// A thread-confined calculator session. Each worker thread owns one; the
/// underlying engine handle is never shared across threads.
pub struct ThreadCalc {
    state: SessionState,
}

impl ThreadCalc {
    /// The session's lifecycle state.
    pub closed spec fn state(&self) -> SessionState {
        self.state
    }

    /// A fresh session: no engine handle yet.
    pub fn new() -> (c: ThreadCalc)
        ensures
            c.state() is Uninitialized,
    {
        ThreadCalc { state: SessionState::Uninitialized }
    }

    /// Records the outcome of the (externally performed) engine-handle
    /// creation. Creating a handle on an already-initialized session is a
    /// no-op; a destroyed session cannot be revived.
    pub fn handle_created(&mut self, success: bool) -> (r: MinaCalcResult<()>)
        ensures
            old(self).state() is Uninitialized && success ==> final(self).state()
                is Initialized && r is Ok,
            old(self).state() is Uninitialized && !success ==> final(self).state()
                is Uninitialized && r == Err::<(), MinaCalcError>(
                MinaCalcError::CalculatorCreationFailed,
            ),
            old(self).state() is Initialized ==> final(self).state() is Initialized && r is Ok,
            old(self).state() is Destroyed ==> final(self).state() is Destroyed && r == Err::<
                (),
                MinaCalcError,
            >(MinaCalcError::CalculatorCreationFailed),
    {
        match self.state {
            SessionState::Uninitialized => {
                if success {
                    self.state = SessionState::Initialized;
                    Ok(())
                } else {
                    Err(MinaCalcError::CalculatorCreationFailed)
                }
            },
            SessionState::Initialized => Ok(()),
            SessionState::Destroyed => Err(MinaCalcError::CalculatorCreationFailed),
        }
    }

    /// Whether this session holds a live engine handle.
    pub fn is_initialized(&self) -> (r: bool)
        ensures
            r == (self.state() is Initialized),
    {
        match self.state {
            SessionState::Initialized => true,
            _ => false,
        }
    }

    /// Tears the session down. A session is destroyed exactly once, at the
    /// end of its thread's life, and never reinitialized.
    pub fn teardown(&mut self)
        requires
            old(self).state() is Initialized,
        ensures
            final(self).state() is Destroyed,
    {
        self.state = SessionState::Destroyed;
    }

    /// Validates a rate-scoped scoring request. On success the returned
    /// value is exactly what the engine must be invoked with; nothing is
    /// validated against the engine itself, so no partial call can occur.
    pub fn calc_at_rate(
        &self,
        notes: &Vec<Note>,
        music_rate_milli: i64,
        score_goal_milli: i64,
        key_count: u32,
        capped: bool,
    ) -> (r: MinaCalcResult<RateCall>)
        ensures
            r is Ok <==> rate_inputs_ok(
                notes@,
                music_rate_milli as int,
                score_goal_milli as int,
                key_count,
                capped,
            ) && notes_all_valid(notes@) && self.state() is Initialized,
            r == Err::<RateCall, MinaCalcError>(MinaCalcError::NoNotesProvided) <==> notes@.len()
                == 0,
            notes@.len() > 0 ==> (r == Err::<RateCall, MinaCalcError>(
                MinaCalcError::InvalidMusicRate(music_rate_milli),
            ) <==> music_rate_milli <= 0),
            notes@.len() > 0 && music_rate_milli > 0 ==> (r == Err::<RateCall, MinaCalcError>(
                MinaCalcError::InvalidScoreGoal(score_goal_milli),
            ) <==> capped && !score_goal_ok(score_goal_milli as int)),
            notes@.len() > 0 && music_rate_milli > 0 && (!capped || score_goal_ok(
                score_goal_milli as int,
            )) ==> (r == Err::<RateCall, MinaCalcError>(
                MinaCalcError::UnsupportedKeyCount(key_count),
            ) <==> !key_count_supported(key_count)),
            rate_inputs_ok(
                notes@,
                music_rate_milli as int,
                score_goal_milli as int,
                key_count,
                capped,
            ) ==> ((r matches Err(MinaCalcError::InvalidNoteData(_))) <==> !notes_all_valid(
                notes@,
            )),
            r matches Err(MinaCalcError::InvalidNoteData(m)) ==> m@
                == "note has no columns or a negative time"@,
            rate_inputs_ok(
                notes@,
                music_rate_milli as int,
                score_goal_milli as int,
                key_count,
                capped,
            ) && notes_all_valid(notes@) ==> (r == Err::<RateCall, MinaCalcError>(
                MinaCalcError::CalculatorCreationFailed,
            ) <==> !(self.state() is Initialized)),
            r matches Ok(c) ==> c == (RateCall {
                music_rate_milli,
                score_goal_milli,
                key_count,
                capped,
            }),
    {
        if notes.len() == 0 {
            return Err(MinaCalcError::NoNotesProvided);
        }
        if music_rate_milli <= 0 {
            return Err(MinaCalcError::InvalidMusicRate(music_rate_milli));
        }
        if capped && (score_goal_milli <= 0 || score_goal_milli > 1000) {
            return Err(MinaCalcError::InvalidScoreGoal(score_goal_milli));
        }
        if !(key_count == 4 || key_count == 6 || key_count == 7) {
            return Err(MinaCalcError::UnsupportedKeyCount(key_count));
        }
        let mut i: usize = 0;
        while i < notes.len()
            invariant
                i <= notes@.len(),
                rate_inputs_ok(
                    notes@,
                    music_rate_milli as int,
                    score_goal_milli as int,
                    key_count,
                    capped,
                ),
                forall|j: int| 0 <= j < i ==> note_valid(#[trigger] notes@[j]),
            decreases notes@.len() - i,
        {
            let n = notes[i];
            if n.notes == 0 || n.row_time_us < 0 {
                return Err(
                    MinaCalcError::InvalidNoteData(
                        "note has no columns or a negative time".to_owned(),
                    ),
                );
            }
            i = i + 1;
        }
        match self.state {
            SessionState::Initialized => Ok(
                RateCall { music_rate_milli, score_goal_milli, key_count, capped },
            ),
            _ => Err(MinaCalcError::CalculatorCreationFailed),
        }
    }

    /// Validates a capped (SSR) scoring request: exactly [`Self::calc_at_rate`]
    /// in capped mode, error for error.
    pub fn calc_ssr(
        &self,
        notes: &Vec<Note>,
        music_rate_milli: i64,
        score_goal_milli: i64,
        key_count: u32,
    ) -> (r: MinaCalcResult<RateCall>)
        ensures
            r is Ok <==> rate_inputs_ok(
                notes@,
                music_rate_milli as int,
                score_goal_milli as int,
                key_count,
                true,
            ) && notes_all_valid(notes@) && self.state() is Initialized,
            r == Err::<RateCall, MinaCalcError>(MinaCalcError::NoNotesProvided) <==> notes@.len()
                == 0,
            notes@.len() > 0 ==> (r == Err::<RateCall, MinaCalcError>(
                MinaCalcError::InvalidMusicRate(music_rate_milli),
            ) <==> music_rate_milli <= 0),
            notes@.len() > 0 && music_rate_milli > 0 ==> (r == Err::<RateCall, MinaCalcError>(
                MinaCalcError::InvalidScoreGoal(score_goal_milli),
            ) <==> !score_goal_ok(score_goal_milli as int)),
            notes@.len() > 0 && music_rate_milli > 0 && score_goal_ok(score_goal_milli as int)
                ==> (r == Err::<RateCall, MinaCalcError>(
                MinaCalcError::UnsupportedKeyCount(key_count),
            ) <==> !key_count_supported(key_count)),
            rate_inputs_ok(
                notes@,
                music_rate_milli as int,
                score_goal_milli as int,
                key_count,
                true,
            ) ==> ((r matches Err(MinaCalcError::InvalidNoteData(_))) <==> !notes_all_valid(
                notes@,
            )),
            r matches Err(MinaCalcError::InvalidNoteData(m)) ==> m@
                == "note has no columns or a negative time"@,
            rate_inputs_ok(
                notes@,
                music_rate_milli as int,
                score_goal_milli as int,
                key_count,
                true,
            ) && notes_all_valid(notes@) ==> (r == Err::<RateCall, MinaCalcError>(
                MinaCalcError::CalculatorCreationFailed,
            ) <==> !(self.state() is Initialized)),
            r matches Ok(c) ==> c == (RateCall {
                music_rate_milli,
                score_goal_milli,
                key_count,
                capped: true,
            }),
    {
        self.calc_at_rate(notes, music_rate_milli, score_goal_milli, key_count, true)
    }

    /// Validates an uncapped (MSD) scoring request: exactly
    /// [`Self::calc_at_rate`] in uncapped mode, error for error (the score
    /// goal is never checked).
    pub fn calc_msd(
        &self,
        notes: &Vec<Note>,
        music_rate_milli: i64,
        score_goal_milli: i64,
        key_count: u32,
    ) -> (r: MinaCalcResult<RateCall>)
        ensures
            r is Ok <==> rate_inputs_ok(
                notes@,
                music_rate_milli as int,
                score_goal_milli as int,
                key_count,
                false,
            ) && notes_all_valid(notes@) && self.state() is Initialized,
            r == Err::<RateCall, MinaCalcError>(MinaCalcError::NoNotesProvided) <==> notes@.len()
                == 0,
            notes@.len() > 0 ==> (r == Err::<RateCall, MinaCalcError>(
                MinaCalcError::InvalidMusicRate(music_rate_milli),
            ) <==> music_rate_milli <= 0),
            !(r matches Err(MinaCalcError::InvalidScoreGoal(_))),
            notes@.len() > 0 && music_rate_milli > 0 ==> (r == Err::<RateCall, MinaCalcError>(
                MinaCalcError::UnsupportedKeyCount(key_count),
            ) <==> !key_count_supported(key_count)),
            rate_inputs_ok(
                notes@,
                music_rate_milli as int,
                score_goal_milli as int,
                key_count,
                false,
            ) ==> ((r matches Err(MinaCalcError::InvalidNoteData(_))) <==> !notes_all_valid(
                notes@,
            )),
            r matches Err(MinaCalcError::InvalidNoteData(m)) ==> m@
                == "note has no columns or a negative time"@,
            rate_inputs_ok(
                notes@,
                music_rate_milli as int,
                score_goal_milli as int,
                key_count,
                false,
            ) && notes_all_valid(notes@) ==> (r == Err::<RateCall, MinaCalcError>(
                MinaCalcError::CalculatorCreationFailed,
            ) <==> !(self.state() is Initialized)),
            r matches Ok(c) ==> c == (RateCall {
                music_rate_milli,
                score_goal_milli,
                key_count,
                capped: false,
            }),
    {
        self.calc_at_rate(notes, music_rate_milli, score_goal_milli, key_count, false)
    }

    /// Validates an all-rates scoring request (rate and goal checks do not
    /// apply: the engine's batch entry point covers rates 0.7 through 2.0
    /// itself).
    pub fn calc_all_rates(&self, notes: &Vec<Note>, key_count: u32, capped: bool) -> (r:
        MinaCalcResult<AllRatesCall>)
        ensures
            r is Ok <==> all_rates_inputs_ok(notes@, key_count) && notes_all_valid(notes@)
                && self.state() is Initialized,
            r == Err::<AllRatesCall, MinaCalcError>(MinaCalcError::NoNotesProvided)
                <==> notes@.len() == 0,
            notes@.len() > 0 ==> (r == Err::<AllRatesCall, MinaCalcError>(
                MinaCalcError::UnsupportedKeyCount(key_count),
            ) <==> !key_count_supported(key_count)),
            all_rates_inputs_ok(notes@, key_count) ==> ((r matches Err(
                MinaCalcError::InvalidNoteData(_),
            )) <==> !notes_all_valid(notes@)),
            r matches Err(MinaCalcError::InvalidNoteData(m)) ==> m@
                == "note has no columns or a negative time"@,
            all_rates_inputs_ok(notes@, key_count) && notes_all_valid(notes@) ==> (r == Err::<
                AllRatesCall,
                MinaCalcError,
            >(MinaCalcError::CalculatorCreationFailed) <==> !(self.state() is Initialized)),
            r matches Ok(c) ==> c == (AllRatesCall { key_count, capped }),
    {
        if notes.len() == 0 {
            return Err(MinaCalcError::NoNotesProvided);
        }
        if !(key_count == 4 || key_count == 6 || key_count == 7) {
            return Err(MinaCalcError::UnsupportedKeyCount(key_count));
        }
        let mut i: usize = 0;
        while i < notes.len()
            invariant
                i <= notes@.len(),
                all_rates_inputs_ok(notes@, key_count),
                forall|j: int| 0 <= j < i ==> note_valid(#[trigger] notes@[j]),
            decreases notes@.len() - i,
        {
            let n = notes[i];
            if n.notes == 0 || n.row_time_us < 0 {
                return Err(
                    MinaCalcError::InvalidNoteData(
                        "note has no columns or a negative time".to_owned(),
                    ),
                );
            }
            i = i + 1;
        }
        match self.state {
            SessionState::Initialized => Ok(AllRatesCall { key_count, capped }),
            _ => Err(MinaCalcError::CalculatorCreationFailed),
        }
    }

    /// Validates a rate-scoped request over a whole chart: the key count is
    /// checked first, before any quantization work, then the rate and goal,
    /// and only then is the chart converted. A conversion failure is
    /// surfaced unchanged. On success the returned stream is exactly the
    /// chart's converted stream, alongside the engine invocation to make.
    pub fn calculate_at_rate_from_chart(
        &self,
        chart: &Chart,
        music_rate_milli: i64,
        score_goal_milli: i64,
        chart_rate_milli: Option<i64>,
        capped: bool,
    ) -> (r: MinaCalcResult<(Vec<Note>, RateCall)>)
        requires
            chart_bounded(*chart),
        ensures
            !key_count_supported(chart.key_count) <==> r == Err::<
                (Vec<Note>, RateCall),
                MinaCalcError,
            >(MinaCalcError::UnsupportedKeyCount(chart.key_count)),
            key_count_supported(chart.key_count) ==> (r == Err::<
                (Vec<Note>, RateCall),
                MinaCalcError,
            >(MinaCalcError::InvalidMusicRate(music_rate_milli)) <==> music_rate_milli <= 0),
            key_count_supported(chart.key_count) && music_rate_milli > 0 ==> (r == Err::<
                (Vec<Note>, RateCall),
                MinaCalcError,
            >(MinaCalcError::InvalidScoreGoal(score_goal_milli)) <==> capped && !score_goal_ok(
                score_goal_milli as int,
            )),
            // a conversion failure is surfaced unchanged
            key_count_supported(chart.key_count) && music_rate_milli > 0 && (!capped
                || score_goal_ok(score_goal_milli as int)) ==> (r == Err::<
                (Vec<Note>, RateCall),
                MinaCalcError,
            >(MinaCalcError::RoxError(
                RoxError::InvalidRate(effective_rate(chart_rate_milli) as i64),
            )) <==> effective_rate(chart_rate_milli) <= 0),
            key_count_supported(chart.key_count) && music_rate_milli > 0 && (!capped
                || score_goal_ok(score_goal_milli as int)) && effective_rate(chart_rate_milli)
                > 0 ==> (r == Err::<(Vec<Note>, RateCall), MinaCalcError>(
                MinaCalcError::RoxError(RoxError::NoNotes),
            ) <==> chart.notes@.len() == 0),
            key_count_supported(chart.key_count) && music_rate_milli > 0 && (!capped
                || score_goal_ok(score_goal_milli as int)) && effective_rate(chart_rate_milli)
                > 0 && chart.notes@.len() > 0 ==> (r == Err::<
                (Vec<Note>, RateCall),
                MinaCalcError,
            >(MinaCalcError::RoxError(RoxError::InvalidNote(0))) <==> (exists|t: int|
                #[trigger] chart_merged(*chart, effective_rate(chart_rate_milli)).dom().contains(
                    t,
                ) && t < 0)),
            r is Ok <==> key_count_supported(chart.key_count) && music_rate_milli > 0 && (!capped
                || score_goal_ok(score_goal_milli as int)) && self.state() is Initialized
                && effective_rate(chart_rate_milli) > 0 && chart.notes@.len() > 0 && (forall|
                t: int,
            |
                #[trigger] chart_merged(*chart, effective_rate(chart_rate_milli)).dom().contains(
                    t,
                ) ==> t >= 0),
            key_count_supported(chart.key_count) && music_rate_milli > 0 && (!capped
                || score_goal_ok(score_goal_milli as int)) && effective_rate(chart_rate_milli)
                > 0 && chart.notes@.len() > 0 && (forall|t: int|
                #[trigger] chart_merged(*chart, effective_rate(chart_rate_milli)).dom().contains(
                    t,
                ) ==> t >= 0) ==> (r == Err::<(Vec<Note>, RateCall), MinaCalcError>(
                MinaCalcError::CalculatorCreationFailed,
            ) <==> !(self.state() is Initialized)),
            // the stream handed back is exactly the chart's converted stream
            r matches Ok(v) ==> notes_strictly_sorted(v.0@) && notes_as_map(v.0@) == chart_merged(
                *chart,
                effective_rate(chart_rate_milli),
            ) && v.0@.len() > 0 && notes_all_valid(v.0@),
            r matches Ok(v) ==> v.1 == (RateCall {
                music_rate_milli,
                score_goal_milli,
                key_count: chart.key_count,
                capped,
            }),
    {
        if !(chart.key_count == 4 || chart.key_count == 6 || chart.key_count == 7) {
            return Err(MinaCalcError::UnsupportedKeyCount(chart.key_count));
        }
        if music_rate_milli <= 0 {
            return Err(MinaCalcError::InvalidMusicRate(music_rate_milli));
        }
        if capped && (score_goal_milli <= 0 || score_goal_milli > 1000) {
            return Err(MinaCalcError::InvalidScoreGoal(score_goal_milli));
        }
        let notes = match chart_to_notes(chart, chart_rate_milli) {
            Ok(v) => v,
            Err(e) => {
                return Err(MinaCalcError::RoxError(e));
            },
        };
        match self.state {
            SessionState::Initialized => Ok(
                (
                    notes,
                    RateCall {
                        music_rate_milli,
                        score_goal_milli,
                        key_count: chart.key_count,
                        capped,
                    },
                ),
            ),
            _ => Err(MinaCalcError::CalculatorCreationFailed),
        }
    }

    /// Validates an all-rates request over a whole chart: the key count is
    /// checked before any quantization work, the chart is converted at 1.0x,
    /// and a conversion failure is surfaced unchanged. On success the
    /// returned stream is exactly the chart's converted stream.
    pub fn calculate_all_rates_from_chart(&self, chart: &Chart, capped: bool) -> (r:
        MinaCalcResult<(Vec<Note>, AllRatesCall)>)
        requires
            chart_bounded(*chart),
        ensures
            !key_count_supported(chart.key_count) <==> r == Err::<
                (Vec<Note>, AllRatesCall),
                MinaCalcError,
            >(MinaCalcError::UnsupportedKeyCount(chart.key_count)),
            // a conversion failure is surfaced unchanged
            key_count_supported(chart.key_count) ==> (r == Err::<
                (Vec<Note>, AllRatesCall),
                MinaCalcError,
            >(MinaCalcError::RoxError(RoxError::NoNotes)) <==> chart.notes@.len() == 0),
            key_count_supported(chart.key_count) && chart.notes@.len() > 0 ==> (r == Err::<
                (Vec<Note>, AllRatesCall),
                MinaCalcError,
            >(MinaCalcError::RoxError(RoxError::InvalidNote(0))) <==> (exists|t: int|
                #[trigger] chart_merged(*chart, 1000).dom().contains(t) && t < 0)),
            r is Ok <==> key_count_supported(chart.key_count) && self.state() is Initialized
                && chart.notes@.len() > 0 && (forall|t: int|
                #[trigger] chart_merged(*chart, 1000).dom().contains(t) ==> t >= 0),
            key_count_supported(chart.key_count) && chart.notes@.len() > 0 && (forall|t: int|
                #[trigger] chart_merged(*chart, 1000).dom().contains(t) ==> t >= 0) ==> (r
                == Err::<(Vec<Note>, AllRatesCall), MinaCalcError>(
                MinaCalcError::CalculatorCreationFailed,
            ) <==> !(self.state() is Initialized)),
            // the stream handed back is exactly the chart's converted stream
            r matches Ok(v) ==> notes_strictly_sorted(v.0@) && notes_as_map(v.0@) == chart_merged(
                *chart,
                1000,
            ) && v.0@.len() > 0 && notes_all_valid(v.0@),
            r matches Ok(v) ==> v.1 == (AllRatesCall { key_count: chart.key_count, capped }),
    {
        if !(chart.key_count == 4 || chart.key_count == 6 || chart.key_count == 7) {
            return Err(MinaCalcError::UnsupportedKeyCount(chart.key_count));
        }
        let notes = match chart_to_notes(chart, None) {
            Ok(v) => v,
            Err(e) => {
                return Err(MinaCalcError::RoxError(e));
            },
        };
        match self.state {
            SessionState::Initialized => Ok(
                (notes, AllRatesCall { key_count: chart.key_count, capped }),
            ),
            _ => Err(MinaCalcError::CalculatorCreationFailed),
        }
    }
}

} // verus!
