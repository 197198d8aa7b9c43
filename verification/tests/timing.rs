use minacalc_rs::chart::TimingPoint;
use minacalc_rs::timing::extract_bpm_sections_from_chart;
use minacalc_rs::timing::quantize_adaptive;
use minacalc_rs::timing::us_to_beat;
use minacalc_rs::timing::beat_to_us;
use minacalc_rs::timing::BEAT_UNITS_PER_BEAT;
use minacalc_rs::BeatPos;
use minacalc_rs::BpmSection;
use minacalc_rs::Chart;

fn chart_with_points(points: Vec<TimingPoint>) -> Chart {
    Chart { timing_points: points, notes: Vec::new(), key_count: 4, title: String::new() }
}

fn bpm_point(time_us: i64, bpm_milli: u32) -> TimingPoint {
    TimingPoint { time_us, bpm_milli, is_inherited: false, signature: None }
}

#[test]
fn default_tempo_without_timing_points() {
    let sections = extract_bpm_sections_from_chart(&chart_with_points(Vec::new()));
    assert_eq!(sections.len(), 1);
    assert_eq!(sections[0].start_time_us, 0);
    assert_eq!(sections[0].bpm_milli, 120_000);
    assert_eq!(sections[0].start_beat_units, 0);
}

#[test]
fn one_beat_at_default_tempo_quantizes_to_itself() {
    // 500000 us is exactly one beat at 120 bpm
    let sections = extract_bpm_sections_from_chart(&chart_with_points(Vec::new()));
    assert_eq!(us_to_beat(500_000, &sections).units, BEAT_UNITS_PER_BEAT as i128);
    assert_eq!(quantize_adaptive(500_000, &sections), 500_000);
}

#[test]
fn inherited_and_degenerate_points_are_filtered() {
    let sections = extract_bpm_sections_from_chart(&chart_with_points(vec![
        TimingPoint { time_us: 0, bpm_milli: 180_000, is_inherited: true, signature: None },
        bpm_point(1_000, 0),
    ]));
    assert_eq!(sections.len(), 1);
    assert_eq!(sections[0].bpm_milli, 120_000);
    assert_eq!(sections[0].start_time_us, 0);
}

#[test]
fn sections_are_sorted_and_beats_accumulate() {
    // out-of-order input: 60 bpm for one second, then 120 bpm
    let sections = extract_bpm_sections_from_chart(&chart_with_points(vec![
        bpm_point(1_000_000, 120_000),
        bpm_point(0, 60_000),
    ]));
    assert_eq!(sections.len(), 2);
    assert_eq!(sections[0].start_time_us, 0);
    assert_eq!(sections[0].bpm_milli, 60_000);
    assert_eq!(sections[0].start_beat_units, 0);
    assert_eq!(sections[1].start_time_us, 1_000_000);
    assert_eq!(sections[1].bpm_milli, 120_000);
    // one second at 60 bpm is exactly one beat
    assert_eq!(sections[1].start_beat_units, BEAT_UNITS_PER_BEAT as i128);
}

#[test]
fn time_beat_round_trip_is_exact() {
    let sections = extract_bpm_sections_from_chart(&chart_with_points(vec![
        bpm_point(0, 60_000),
        bpm_point(1_000_000, 173_500),
        bpm_point(5_000_000, 99_999),
    ]));
    for &t in &[-750_000i64, 0, 1, 999_999, 1_000_000, 3_333_333, 5_000_000, 123_456_789] {
        let b = us_to_beat(t, &sections);
        assert_eq!(beat_to_us(b, &sections), t);
    }
}

#[test]
fn quantize_is_idempotent_on_awkward_times() {
    let sections = extract_bpm_sections_from_chart(&chart_with_points(vec![
        bpm_point(0, 61_731),
        bpm_point(2_000_003, 173_500),
    ]));
    for &t in &[-13i64, 0, 1, 7, 999_983, 2_000_002, 2_000_004, 77_777_777] {
        let q = quantize_adaptive(t, &sections);
        assert_eq!(quantize_adaptive(q, &sections), q);
    }
}

#[test]
fn quantize_snaps_to_nearest_grid_line() {
    // at 120 bpm one 1/192 grid step is 500000/192 = 2604.1666 us
    let sections = extract_bpm_sections_from_chart(&chart_with_points(vec![bpm_point(
        0, 120_000,
    )]));
    // 2500 us is closest to the first grid line at ~2604 us
    assert_eq!(quantize_adaptive(2_500, &sections), 2_604);
    // 1000 us is closest to the grid line at 0
    assert_eq!(quantize_adaptive(1_000, &sections), 0);
}

#[test]
fn empty_sections_convert_to_zero() {
    let sections: Vec<BpmSection> = Vec::new();
    assert_eq!(us_to_beat(123, &sections).units, 0);
    assert_eq!(beat_to_us(BeatPos { units: 55 }, &sections), 0);
    assert_eq!(quantize_adaptive(123, &sections), 0);
}

#[test]
fn degenerate_stored_tempo_falls_back_to_120_bpm() {
    // a hand-built section with zero tempo must behave like 120 bpm
    let sections = vec![BpmSection { start_time_us: 0, bpm_milli: 0, start_beat_units: 0 }];
    assert_eq!(us_to_beat(500_000, &sections).units, BEAT_UNITS_PER_BEAT as i128);
}

#[test]
fn scale_tempo_scales_in_thousandths() {
    let mut s = BpmSection { start_time_us: 10, bpm_milli: 120_000, start_beat_units: 0 };
    s.scale_tempo(1_500);
    assert_eq!(s.bpm_milli, 180_000);
    assert_eq!(s.start_time_us, 10);
}

#[test]
fn beat_time_round_trip_stays_within_half_a_microsecond() {
    let sections = extract_bpm_sections_from_chart(&chart_with_points(vec![
        bpm_point(0, 120_000),
        bpm_point(1_000_000, 97_351),
    ]));
    for &units in &[1i128, 123_456_789, 60_000_000_001, 987_654_321_012_345] {
        let b = BeatPos { units };
        let t = beat_to_us(b, &sections);
        let back = us_to_beat(t, &sections);
        // one microsecond spans bpm_milli beat units; the round trip is off
        // by at most half of that
        assert!((back.units - units).abs() <= 120_000 / 2);
    }
}

#[test]
fn beat_to_us_saturates_at_the_i64_range() {
    let sections = vec![BpmSection { start_time_us: 0, bpm_milli: 1, start_beat_units: 0 }];
    let far = BeatPos { units: 1_000_000_000_000_000_000_000_000_000 };
    assert_eq!(beat_to_us(far, &sections), i64::MAX);
    let before = BeatPos { units: -1_000_000_000_000_000_000_000_000_000 };
    assert_eq!(beat_to_us(before, &sections), i64::MIN);
}

#[test]
fn equal_time_points_keep_chart_order() {
    // two points at the same time: the one later in chart order wins the
    // lookup, whatever its tempo
    let sections = extract_bpm_sections_from_chart(&chart_with_points(vec![
        bpm_point(0, 180_000),
        bpm_point(0, 60_000),
    ]));
    assert_eq!(sections.len(), 2);
    assert_eq!(sections[0].bpm_milli, 180_000);
    assert_eq!(sections[1].bpm_milli, 60_000);
    // one second at the active 60 bpm is exactly one beat
    assert_eq!(us_to_beat(1_000_000, &sections).units, BEAT_UNITS_PER_BEAT as i128);
}
