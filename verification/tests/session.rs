use minacalc_rs::chart::TimingPoint;
use minacalc_rs::RoxError;
use minacalc_rs::scores::get_dominant;
use minacalc_rs::scores::rate_key;
use minacalc_rs::text::truncate_path;
use minacalc_rs::Chart;
use minacalc_rs::MinaCalcError;
use minacalc_rs::MsdForAllRates;
use minacalc_rs::Note;
use minacalc_rs::RawNote;
use minacalc_rs::SkillsetScores;
use minacalc_rs::ThreadCalc;

fn scores(v: i64) -> SkillsetScores {
    SkillsetScores {
        overall: v,
        stream: v,
        jumpstream: v,
        handstream: v,
        stamina: v,
        jackspeed: v,
        chordjack: v,
        technical: v,
    }
}

fn live_session() -> ThreadCalc {
    let mut calc = ThreadCalc::new();
    calc.handle_created(true).unwrap();
    calc
}

fn some_notes() -> Vec<Note> {
    vec![Note { notes: 1, row_time_us: 0 }, Note { notes: 2, row_time_us: 500_000 }]
}

#[test]
fn session_lifecycle() {
    let mut calc = ThreadCalc::new();
    assert!(!calc.is_initialized());
    assert!(calc.handle_created(true).is_ok());
    assert!(calc.is_initialized());
    // creating again on the same thread reuses the live handle
    assert!(calc.handle_created(true).is_ok());
    assert!(calc.is_initialized());
    calc.teardown();
    assert!(!calc.is_initialized());
    // a destroyed session cannot be revived
    assert!(matches!(
        calc.handle_created(true),
        Err(MinaCalcError::CalculatorCreationFailed)
    ));
}

#[test]
fn failed_handle_creation_is_reported() {
    let mut calc = ThreadCalc::new();
    assert!(matches!(
        calc.handle_created(false),
        Err(MinaCalcError::CalculatorCreationFailed)
    ));
    assert!(!calc.is_initialized());
}

#[test]
fn rate_zero_fails_with_invalid_music_rate() {
    let calc = live_session();
    let r = calc.calc_at_rate(&some_notes(), 0, 930, 4, true);
    assert!(matches!(r, Err(MinaCalcError::InvalidMusicRate(0))));
}

#[test]
fn empty_notes_fail_with_no_notes_provided() {
    let calc = live_session();
    let r = calc.calc_at_rate(&Vec::new(), 1_000, 930, 4, true);
    assert!(matches!(r, Err(MinaCalcError::NoNotesProvided)));
}

#[test]
fn capped_goal_must_lie_in_unit_interval() {
    let calc = live_session();
    assert!(matches!(
        calc.calc_at_rate(&some_notes(), 1_000, 0, 4, true),
        Err(MinaCalcError::InvalidScoreGoal(0))
    ));
    assert!(matches!(
        calc.calc_at_rate(&some_notes(), 1_000, 1_001, 4, true),
        Err(MinaCalcError::InvalidScoreGoal(1_001))
    ));
    // uncapped scoring ignores the goal
    assert!(calc.calc_at_rate(&some_notes(), 1_000, 1_001, 4, false).is_ok());
}

#[test]
fn unsupported_key_count_is_rejected() {
    let calc = live_session();
    assert!(matches!(
        calc.calc_at_rate(&some_notes(), 1_000, 930, 5, true),
        Err(MinaCalcError::UnsupportedKeyCount(5))
    ));
    for kc in [4u32, 6, 7] {
        assert!(calc.calc_at_rate(&some_notes(), 1_000, 930, kc, true).is_ok());
    }
}

#[test]
fn successful_request_carries_its_parameters() {
    let calc = live_session();
    let call = calc.calc_ssr(&some_notes(), 1_500, 930, 7).unwrap();
    assert_eq!(call.music_rate_milli, 1_500);
    assert_eq!(call.score_goal_milli, 930);
    assert_eq!(call.key_count, 7);
    assert!(call.capped);
    let msd = calc.calc_msd(&some_notes(), 1_500, 930, 7).unwrap();
    assert!(!msd.capped);
    let all = calc.calc_all_rates(&some_notes(), 6, true).unwrap();
    assert_eq!(all.key_count, 6);
    assert!(all.capped);
}

#[test]
fn unsupported_key_count_fails_before_any_quantization() {
    // key count 5 is rejected before the chart's notes are even looked at:
    // this chart would otherwise fail conversion with an invalid note
    let calc = live_session();
    let c = Chart {
        timing_points: vec![TimingPoint {
            time_us: 0,
            bpm_milli: 120_000,
            is_inherited: false,
            signature: None,
        }],
        notes: vec![RawNote { time_us: -500_000, column: 0 }],
        key_count: 5,
        title: String::new(),
    };
    assert!(matches!(
        calc.calculate_at_rate_from_chart(&c, 1_000, 930, None, true),
        Err(MinaCalcError::UnsupportedKeyCount(5))
    ));
}

#[test]
fn chart_request_converts_and_validates() {
    let calc = live_session();
    let c = Chart {
        timing_points: vec![TimingPoint {
            time_us: 0,
            bpm_milli: 120_000,
            is_inherited: false,
            signature: None,
        }],
        notes: vec![
            RawNote { time_us: 125_000, column: 0 },
            RawNote { time_us: 125_000, column: 1 },
        ],
        key_count: 4,
        title: String::new(),
    };
    let (notes, call) = calc.calculate_at_rate_from_chart(&c, 1_000, 930, None, true).unwrap();
    assert_eq!(notes.len(), 1);
    assert_eq!(notes[0].notes, 0b11);
    assert_eq!(notes[0].row_time_us, 125_000);
    assert_eq!(call.key_count, 4);
    let (notes2, all) = calc.calculate_all_rates_from_chart(&c, false).unwrap();
    assert_eq!(notes2.len(), 1);
    assert!(!all.capped);
}

#[test]
fn scores_outside_range_are_rejected() {
    assert!(scores(0).validate().is_ok());
    assert!(scores(1_000_000).validate().is_ok());
    assert!(matches!(
        scores(-1).validate(),
        Err(MinaCalcError::InvalidScoreData(-1))
    ));
    let mut s = scores(500_000);
    s.technical = 1_000_001;
    assert!(matches!(
        s.validate(),
        Err(MinaCalcError::InvalidScoreData(1_000_001))
    ));
}

#[test]
fn all_rates_validation_scans_every_entry() {
    let mut entries = vec![scores(10_000); 14];
    let all = MsdForAllRates { msds: entries.clone() };
    assert!(all.validate().is_ok());
    entries[13].stream = -5;
    let bad = MsdForAllRates { msds: entries };
    assert!(matches!(bad.validate(), Err(MinaCalcError::InvalidScoreData(-5))));
}

#[test]
fn rate_lookup_maps_thousandths_to_entries() {
    let mut entries = vec![scores(0); 14];
    entries[3] = scores(777_000);
    let all = MsdForAllRates { msds: entries };
    // 1.0x sits at index 3
    assert_eq!(all.get_rate_scores(1_000).unwrap().overall, 777_000);
    // halfway rates round to the nearest covered rate
    assert_eq!(all.get_rate_scores(1_049).unwrap().overall, 777_000);
    assert!(matches!(
        all.get_rate_scores(600),
        Err(MinaCalcError::InvalidNoteData(_))
    ));
    assert!(matches!(
        all.get_rate_scores(2_001),
        Err(MinaCalcError::InvalidNoteData(_))
    ));
    let rates = all.get_available_rates();
    assert_eq!(rates.len(), 14);
    assert_eq!(rates[0], 700);
    assert_eq!(rates[13], 2_000);
}

#[test]
fn rate_keys_use_one_decimal() {
    assert_eq!(rate_key(0), "0.7");
    assert_eq!(rate_key(3), "1.0");
    assert_eq!(rate_key(13), "2.0");
}

#[test]
fn dominant_skillset_prefers_later_ties() {
    let mut s = scores(10_000);
    assert_eq!(get_dominant(&s), "Technical");
    s.technical = 9_000;
    s.chordjack = 9_500;
    assert_eq!(get_dominant(&s), "JackSpeed");
    s.stream = 20_000;
    assert_eq!(get_dominant(&s), "Stream");
}

#[test]
fn truncate_path_keeps_short_names_and_trims_long_ones() {
    assert_eq!(truncate_path("chart.osu", 50), "chart.osu");
    assert_eq!(truncate_path("abcdefghij", 8), "...fghij");
    assert_eq!(truncate_path("abc", 3), "abc");
}

#[test]
fn requests_with_invalid_notes_are_rejected() {
    let calc = live_session();
    let notes = vec![
        Note { notes: 1, row_time_us: 0 },
        Note { notes: 0, row_time_us: 10 },
    ];
    assert!(matches!(
        calc.calc_at_rate(&notes, 1_000, 930, 4, true),
        Err(MinaCalcError::InvalidNoteData(_))
    ));
}

#[test]
fn conversion_failures_surface_unchanged() {
    let calc = live_session();
    let c = Chart {
        timing_points: Vec::new(),
        notes: Vec::new(),
        key_count: 4,
        title: String::new(),
    };
    assert!(matches!(
        calc.calculate_at_rate_from_chart(&c, 1_000, 930, None, true),
        Err(MinaCalcError::RoxError(RoxError::NoNotes))
    ));
    let negative = Chart {
        timing_points: Vec::new(),
        notes: vec![RawNote { time_us: -500_000, column: 0 }],
        key_count: 4,
        title: String::new(),
    };
    assert!(matches!(
        calc.calculate_all_rates_from_chart(&negative, true),
        Err(MinaCalcError::RoxError(RoxError::InvalidNote(0)))
    ));
}
