//! Error taxonomy: chart conversion errors and calculator-session errors.
//!
//! All validation is performed before any call into the external scoring
//! engine; the variants here say exactly which check failed.

use vstd::prelude::*;

verus! {

/// Errors of the chart-to-notes conversion pipeline.
#[derive(Debug, Clone)]
pub enum RoxError {
    /// The chart collaborator failed to parse its input.
    DecodeFailed(String),
    /// Non-positive playback rate, in thousandths.
    InvalidRate(i64),
    /// Empty note set after filtering and merging.
    NoNotes,
    /// A merged note failed validation (zero mask or negative time); carries
    /// the index of the first invalid note.
    InvalidNote(usize),
    /// Key count outside the supported set.
    UnsupportedKeyCount(usize),
}

/// Errors of the calculator session.
#[derive(Debug, Clone)]
pub enum MinaCalcError {
    /// The native engine handle could not be created, or an operation was
    /// attempted after teardown.
    CalculatorCreationFailed,
    /// No notes were provided for calculation.
    NoNotesProvided,
    /// Non-positive music rate, in thousandths.
    InvalidMusicRate(i64),
    /// Capped scoring with a goal outside (0, 1], in thousandths.
    InvalidScoreGoal(i64),
    /// The engine returned a score outside [0, 1000]; carries the offending
    /// value in thousandths.
    InvalidScoreData(i64),
    /// Key count outside the supported set {4, 6, 7}.
    UnsupportedKeyCount(u32),
    /// The engine call itself failed.
    CalculationFailed(String),
    /// Invalid note data, or a lookup for a rate the all-rates table does
    /// not cover; carries a message.
    InvalidNoteData(String),
    /// Memory allocation failed.
    MemoryAllocationFailed,
    /// Internal engine error.
    InternalError(String),
    /// A chart conversion error, surfaced unchanged.
    RoxError(RoxError),
}

impl MinaCalcError {
    /// Wraps a conversion error, surfacing it unchanged to the caller.
    pub fn from_rox(e: RoxError) -> (r: MinaCalcError)
        ensures
            r == MinaCalcError::RoxError(e),
    {
        MinaCalcError::RoxError(e)
    }
}

/// Result of a conversion operation.
pub type RoxResult<T> = Result<T, RoxError>;

/// Result of a calculator-session operation.
pub type MinaCalcResult<T> = Result<T, MinaCalcError>;

} // verus!
