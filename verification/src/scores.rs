//! Skillset scores returned by the external scoring engine, in exact integer
//! form (thousandths of a point), with the validation the session applies to
//! every engine result, and the rate-keyed views over the fourteen playback
//! rates 0.7x through 2.0x.

use vstd::prelude::*;

use crate::arith::round_div;
use crate::error::MinaCalcError;

verus! {

/// Largest score the engine may return, in thousandths (1000 points).
pub const MAX_SCORE_MILLI: i64 = 1_000_000;

/// Number of playback rates covered by an all-rates calculation.
pub const RATE_COUNT: usize = 14;

/// The eight skillset scores of one calculation, each in thousandths of a
/// point.
#[derive(Debug, Clone, Copy, PartialEq, Eq, Structural)]
pub struct SkillsetScores {
    pub overall: i64,
    pub stream: i64,
    pub jumpstream: i64,
    pub handstream: i64,
    pub stamina: i64,
    pub jackspeed: i64,
    pub chordjack: i64,
    pub technical: i64,
}

/// A returned score must lie within [0, 1000] points.
pub open spec fn score_in_range(v: i64) -> bool {
    0 <= v <= MAX_SCORE_MILLI
}

/// All eight skillsets within range.
pub open spec fn scores_wf(s: SkillsetScores) -> bool {
    &&& score_in_range(s.overall)
    &&& score_in_range(s.stream)
    &&& score_in_range(s.jumpstream)
    &&& score_in_range(s.handstream)
    &&& score_in_range(s.stamina)
    &&& score_in_range(s.jackspeed)
    &&& score_in_range(s.chordjack)
    &&& score_in_range(s.technical)
}

/// The first out-of-range skillset value, in field order.
pub open spec fn first_bad_score(s: SkillsetScores) -> Option<i64> {
    if !score_in_range(s.overall) {
        Some(s.overall)
    } else if !score_in_range(s.stream) {
        Some(s.stream)
    } else if !score_in_range(s.jumpstream) {
        Some(s.jumpstream)
    } else if !score_in_range(s.handstream) {
        Some(s.handstream)
    } else if !score_in_range(s.stamina) {
        Some(s.stamina)
    } else if !score_in_range(s.jackspeed) {
        Some(s.jackspeed)
    } else if !score_in_range(s.chordjack) {
        Some(s.chordjack)
    } else if !score_in_range(s.technical) {
        Some(s.technical)
    } else {
        None
    }
}

impl SkillsetScores {
    /// Validates every skillset against the [0, 1000] point range, reporting
    /// the first value outside it.
    pub fn validate(&self) -> (r: Result<(), MinaCalcError>)
        ensures
            r is Ok <==> scores_wf(*self),
            r is Ok <==> first_bad_score(*self) is None,
            first_bad_score(*self) matches Some(v) ==> r == Err::<(), MinaCalcError>(
                MinaCalcError::InvalidScoreData(v),
            ),
    {
        if self.overall < 0 || self.overall > MAX_SCORE_MILLI {
            return Err(MinaCalcError::InvalidScoreData(self.overall));
        }
        if self.stream < 0 || self.stream > MAX_SCORE_MILLI {
            return Err(MinaCalcError::InvalidScoreData(self.stream));
        }
        if self.jumpstream < 0 || self.jumpstream > MAX_SCORE_MILLI {
            return Err(MinaCalcError::InvalidScoreData(self.jumpstream));
        }
        if self.handstream < 0 || self.handstream > MAX_SCORE_MILLI {
            return Err(MinaCalcError::InvalidScoreData(self.handstream));
        }
        if self.stamina < 0 || self.stamina > MAX_SCORE_MILLI {
            return Err(MinaCalcError::InvalidScoreData(self.stamina));
        }
        if self.jackspeed < 0 || self.jackspeed > MAX_SCORE_MILLI {
            return Err(MinaCalcError::InvalidScoreData(self.jackspeed));
        }
        if self.chordjack < 0 || self.chordjack > MAX_SCORE_MILLI {
            return Err(MinaCalcError::InvalidScoreData(self.chordjack));
        }
        if self.technical < 0 || self.technical > MAX_SCORE_MILLI {
            return Err(MinaCalcError::InvalidScoreData(self.technical));
        }
        Ok(())
    }
}

/// The dominant sub-skillset: the named one with the highest score, later
/// names winning ties, in the fixed order stream, jumpstream, handstream,
/// stamina, jackspeed, chordjack, technical. The overall score does not
/// compete.
pub open spec fn dominant_name(s: SkillsetScores) -> Seq<char> {
    if s.technical >= s.stream && s.technical >= s.jumpstream && s.technical >= s.handstream
        && s.technical >= s.stamina && s.technical >= s.jackspeed && s.technical >= s.chordjack {
        "Technical"@
    } else if s.chordjack >= s.stream && s.chordjack >= s.jumpstream && s.chordjack
        >= s.handstream && s.chordjack >= s.stamina && s.chordjack >= s.jackspeed {
        "Chordjack"@
    } else if s.jackspeed >= s.stream && s.jackspeed >= s.jumpstream && s.jackspeed
        >= s.handstream && s.jackspeed >= s.stamina {
        "JackSpeed"@
    } else if s.stamina >= s.stream && s.stamina >= s.jumpstream && s.stamina >= s.handstream {
        "Stamina"@
    } else if s.handstream >= s.stream && s.handstream >= s.jumpstream {
        "Handstream"@
    } else if s.jumpstream >= s.stream {
        "Jumpstream"@
    } else {
        "Stream"@
    }
}

/// Names the sub-skillset with the highest score (later ones win ties).
pub fn get_dominant(s: &SkillsetScores) -> (r: &'static str)
    ensures
        r@ == dominant_name(*s),
{
    let mut best: i64 = s.stream;
    let mut name: &'static str = "Stream";
    if s.jumpstream >= best {
        best = s.jumpstream;
        name = "Jumpstream";
    }
    if s.handstream >= best {
        best = s.handstream;
        name = "Handstream";
    }
    if s.stamina >= best {
        best = s.stamina;
        name = "Stamina";
    }
    if s.jackspeed >= best {
        best = s.jackspeed;
        name = "JackSpeed";
    }
    if s.chordjack >= best {
        best = s.chordjack;
        name = "Chordjack";
    }
    if s.technical >= best {
        best = s.technical;
        name = "Technical";
    }
    name
}

/// Scores for the fourteen playback rates 0.7x through 2.0x, index `i`
/// holding rate `(700 + 100 * i)` thousandths.
#[derive(Debug, Clone)]
pub struct MsdForAllRates {
    pub msds: Vec<SkillsetScores>,
}

/// The rate in thousandths at an all-rates index.
pub open spec fn rate_at_index(i: int) -> int {
    700 + 100 * i
}

/// The first all-rates entry with an out-of-range skillset, scanned in
/// order; the offending value.
pub open spec fn first_bad_in(mss: Seq<SkillsetScores>) -> Option<i64>
    decreases mss.len(),
{
    if mss.len() == 0 {
        None
    } else {
        match first_bad_score(mss[0]) {
            Some(v) => Some(v),
            None => first_bad_in(mss.drop_first()),
        }
    }
}

impl MsdForAllRates {
    /// Whether this value covers exactly the fourteen rates.
    pub open spec fn wf(&self) -> bool {
        self.msds@.len() == RATE_COUNT
    }

    /// Validates every entry against the [0, 1000] point range, reporting
    /// the first value outside it.
    pub fn validate(&self) -> (r: Result<(), MinaCalcError>)
        ensures
            r is Ok <==> forall|i: int|
                0 <= i < self.msds@.len() ==> scores_wf(#[trigger] self.msds@[i]),
            first_bad_in(self.msds@) matches Some(v) ==> r == Err::<(), MinaCalcError>(
                MinaCalcError::InvalidScoreData(v),
            ),
    {
        proof {
            assert(self.msds@.skip(0) =~= self.msds@);
        }
        let mut i: usize = 0;
        while i < self.msds.len()
            invariant
                i <= self.msds@.len(),
                forall|j: int| 0 <= j < i ==> scores_wf(#[trigger] self.msds@[j]),
                first_bad_in(self.msds@.skip(i as int)) == first_bad_in(self.msds@),
            decreases self.msds@.len() - i,
        {
            proof {
                assert(self.msds@.skip(i as int)[0] == self.msds@[i as int]);
                assert(self.msds@.skip(i as int).drop_first() =~= self.msds@.skip(i + 1));
            }
            match self.msds[i].validate() {
                Ok(()) => {},
                Err(e) => {
                    return Err(e);
                },
            }
            i = i + 1;
        }
        proof {
            assert(self.msds@.skip(self.msds@.len() as int) =~= Seq::<SkillsetScores>::empty());
        }
        Ok(())
    }

    /// The scores at a playback rate given in thousandths: the nearest of
    /// the fourteen covered rates is looked up for a rate within
    /// [700, 2000]; any other rate is rejected as invalid note data, as is a
    /// table too short to hold the computed index.
    pub fn get_rate_scores(&self, rate_milli: i64) -> (r: Result<&SkillsetScores, MinaCalcError>)
        ensures
            700 <= rate_milli <= 2000 && round_div(rate_milli - 700, 100) < self.msds@.len()
                ==> (r matches Ok(s) && *s == self.msds@[round_div(rate_milli - 700, 100)]),
            r is Ok <==> 700 <= rate_milli <= 2000 && round_div(rate_milli - 700, 100)
                < self.msds@.len(),
            !(r is Ok) ==> (r matches Err(MinaCalcError::InvalidNoteData(m)) && m@
                == "rate is out of valid range [0.7, 2.0]"@),
    {
        if rate_milli < 700 || rate_milli > 2000 {
            return Err(
                MinaCalcError::InvalidNoteData("rate is out of valid range [0.7, 2.0]".to_owned()),
            );
        }
        let offset: i64 = rate_milli - 700;
        let index: usize = ((2 * offset + 100) / 200) as usize;
        proof {
            assert(index == round_div(offset as int, 100));
        }
        if index < self.msds.len() {
            Ok(&self.msds[index])
        } else {
            Err(
                MinaCalcError::InvalidNoteData("rate is out of valid range [0.7, 2.0]".to_owned()),
            )
        }
    }

    /// The fourteen covered playback rates, in thousandths.
    pub fn get_available_rates(&self) -> (r: Vec<i64>)
        ensures
            r@.len() == RATE_COUNT,
            forall|i: int| 0 <= i < r@.len() ==> #[trigger] r@[i] == rate_at_index(i),
    {
        let mut rates: Vec<i64> = Vec::new();
        let mut i: usize = 0;
        while i < RATE_COUNT
            invariant
                i <= RATE_COUNT,
                rates@.len() == i,
                forall|j: int| 0 <= j < i ==> #[trigger] rates@[j] == rate_at_index(j),
            decreases RATE_COUNT - i,
        {
            rates.push(700 + 100 * (i as i64));
            i = i + 1;
        }
        rates
    }
}

/// The nominal rate label of an all-rates index, one decimal: "0.7" for
/// index 0 up to "2.0" for index 13.
pub open spec fn rate_key_at(i: int) -> Seq<char> {
    if i == 0 {
        "0.7"@
    } else if i == 1 {
        "0.8"@
    } else if i == 2 {
        "0.9"@
    } else if i == 3 {
        "1.0"@
    } else if i == 4 {
        "1.1"@
    } else if i == 5 {
        "1.2"@
    } else if i == 6 {
        "1.3"@
    } else if i == 7 {
        "1.4"@
    } else if i == 8 {
        "1.5"@
    } else if i == 9 {
        "1.6"@
    } else if i == 10 {
        "1.7"@
    } else if i == 11 {
        "1.8"@
    } else if i == 12 {
        "1.9"@
    } else {
        "2.0"@
    }
}

/// The nominal rate label of an all-rates index.
pub fn rate_key(index: usize) -> (r: &'static str)
    requires
        index < RATE_COUNT,
    ensures
        r@ == rate_key_at(index as int),
{
    match index {
        0 => "0.7",
        1 => "0.8",
        2 => "0.9",
        3 => "1.0",
        4 => "1.1",
        5 => "1.2",
        6 => "1.3",
        7 => "1.4",
        8 => "1.5",
        9 => "1.6",
        10 => "1.7",
        11 => "1.8",
        12 => "1.9",
        _ => "2.0",
    }
}

} // verus!
