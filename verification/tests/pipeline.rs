use minacalc_rs::chart::TimingPoint;
use minacalc_rs::chart_to_notes;
use minacalc_rs::validate_notes;
use minacalc_rs::Chart;
use minacalc_rs::Note;
use minacalc_rs::RawNote;
use minacalc_rs::RoxError;

fn chart(points: Vec<TimingPoint>, notes: Vec<RawNote>, key_count: u32) -> Chart {
    Chart { timing_points: points, notes, key_count, title: String::from("test chart") }
}

fn bpm_point(time_us: i64, bpm_milli: u32) -> TimingPoint {
    TimingPoint { time_us, bpm_milli, is_inherited: false, signature: None }
}

#[test]
fn simultaneous_notes_merge_into_one_mask() {
    // two raw notes at the same time in columns 0 and 1 become one note with
    // mask 0b11
    let c = chart(
        vec![bpm_point(0, 120_000)],
        vec![RawNote { time_us: 125_000, column: 0 }, RawNote { time_us: 125_000, column: 1 }],
        4,
    );
    let notes = chart_to_notes(&c, Some(1_000)).unwrap();
    assert_eq!(notes.len(), 1);
    assert_eq!(notes[0].notes, 0b11);
    assert_eq!(notes[0].row_time_us, 125_000);
}

#[test]
fn empty_note_list_fails_with_no_notes() {
    let c = chart(vec![bpm_point(0, 120_000)], Vec::new(), 4);
    assert!(matches!(chart_to_notes(&c, None), Err(RoxError::NoNotes)));
}

#[test]
fn non_positive_rate_fails_with_invalid_rate() {
    let c = chart(vec![bpm_point(0, 120_000)], vec![RawNote { time_us: 0, column: 0 }], 4);
    assert!(matches!(chart_to_notes(&c, Some(0)), Err(RoxError::InvalidRate(0))));
    assert!(matches!(chart_to_notes(&c, Some(-500)), Err(RoxError::InvalidRate(-500))));
}

#[test]
fn negative_quantized_time_fails_with_invalid_note() {
    // the note precedes the first section by a full beat, so its quantized
    // time is negative
    let c = chart(
        vec![bpm_point(0, 120_000)],
        vec![RawNote { time_us: -500_000, column: 0 }],
        4,
    );
    assert!(matches!(chart_to_notes(&c, None), Err(RoxError::InvalidNote(0))));
}

#[test]
fn stream_is_strictly_sorted_with_distinct_times_and_nonzero_masks() {
    let c = chart(
        vec![bpm_point(0, 120_000), bpm_point(2_000_000, 174_000)],
        vec![
            RawNote { time_us: 2_500_000, column: 3 },
            RawNote { time_us: 0, column: 0 },
            RawNote { time_us: 500_000, column: 1 },
            RawNote { time_us: 500_000, column: 2 },
            RawNote { time_us: 2_500_000, column: 0 },
        ],
        4,
    );
    let notes = chart_to_notes(&c, None).unwrap();
    assert_eq!(notes.len(), 3);
    for w in notes.windows(2) {
        assert!(w[0].row_time_us < w[1].row_time_us);
    }
    for n in &notes {
        assert!(n.notes != 0);
        assert!(n.row_time_us >= 0);
    }
    assert_eq!(notes[0].notes, 0b0001);
    assert_eq!(notes[1].notes, 0b0110);
    assert_eq!(notes[2].notes, 0b1001);
}

#[test]
fn rate_scaling_divides_times() {
    let c = chart(
        vec![bpm_point(0, 120_000)],
        vec![RawNote { time_us: 500_000, column: 0 }, RawNote { time_us: 1_000_000, column: 1 }],
        4,
    );
    let at_one = chart_to_notes(&c, Some(1_000)).unwrap();
    let at_double = chart_to_notes(&c, Some(2_000)).unwrap();
    assert_eq!(at_one.len(), 2);
    assert_eq!(at_double.len(), 2);
    for (a, b) in at_one.iter().zip(at_double.iter()) {
        assert_eq!(b.row_time_us, a.row_time_us * 1_000 / 2_000);
    }
    // rate 1.5x: 500000 / 1.5 truncates to 333333
    let at_three_halves = chart_to_notes(&c, Some(1_500)).unwrap();
    assert_eq!(at_three_halves[0].row_time_us, 333_333);
    assert_eq!(at_three_halves[1].row_time_us, 666_666);
}

#[test]
fn rate_scaling_can_merge_distinct_times() {
    // 2604 us and 2605 us both scale to 1302 us at 2.0x after quantizing to
    // the same grid line
    let c = chart(
        vec![bpm_point(0, 120_000)],
        vec![RawNote { time_us: 2_500, column: 0 }, RawNote { time_us: 2_700, column: 1 }],
        4,
    );
    let notes = chart_to_notes(&c, Some(2_000)).unwrap();
    assert_eq!(notes.len(), 1);
    assert_eq!(notes[0].notes, 0b11);
    assert_eq!(notes[0].row_time_us, 1_302);
}

#[test]
fn missing_rate_defaults_to_unity() {
    let c = chart(vec![bpm_point(0, 120_000)], vec![RawNote { time_us: 500_000, column: 0 }], 4);
    let implicit = chart_to_notes(&c, None).unwrap();
    let explicit = chart_to_notes(&c, Some(1_000)).unwrap();
    assert_eq!(implicit.len(), explicit.len());
    assert_eq!(implicit[0].row_time_us, explicit[0].row_time_us);
    assert_eq!(implicit[0].notes, explicit[0].notes);
}

#[test]
fn validate_notes_reports_each_failure() {
    assert!(matches!(validate_notes(&Vec::new()), Err(RoxError::NoNotes)));
    let zero_mask = vec![
        Note { notes: 1, row_time_us: 0 },
        Note { notes: 0, row_time_us: 10 },
    ];
    assert!(matches!(validate_notes(&zero_mask), Err(RoxError::InvalidNote(1))));
    let negative_time = vec![Note { notes: 1, row_time_us: -1 }];
    assert!(matches!(validate_notes(&negative_time), Err(RoxError::InvalidNote(0))));
    let fine = vec![Note { notes: 3, row_time_us: 0 }, Note { notes: 1, row_time_us: 5 }];
    assert!(validate_notes(&fine).is_ok());
}
