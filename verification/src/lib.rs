//! Tempo-aware note quantization and difficulty-scoring support for rhythm
//! game charts.
//!
//! The library converts freeform note timestamps and irregular tempo changes
//! into a canonical, strictly ordered, rate-scaled stream of time-stamped
//! column bitmasks, and validates the requests sent to (and the scores
//! returned by) an external difficulty-scoring engine.
//!
//! All quantities are exact integers: times are microseconds, tempos are
//! thousandths of a beat-per-minute, and beat positions are counted in units
//! of `1 / 60_000_000_000` of a beat, so that time-to-beat conversion is an
//! exact multiplication and beat-to-time a rounded division.

pub mod arith;
pub mod chart;
pub mod convert;
pub mod error;
pub mod notes;
pub mod scores;
pub mod session;
pub mod text;
pub mod timing;
pub mod timing_laws;

pub use chart::Chart;
pub use chart::RawNote;
pub use chart::TimingPoint;
pub use convert::chart_to_notes;
pub use error::MinaCalcError;
pub use error::MinaCalcResult;
pub use error::RoxError;
pub use error::RoxResult;
pub use notes::Note;
pub use notes::validate_notes;
pub use scores::MsdForAllRates;
pub use scores::SkillsetScores;
pub use session::SessionState;
pub use session::ThreadCalc;
pub use timing::BpmSection;
pub use timing::BeatPos;
