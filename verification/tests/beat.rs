use domers::beat::BeatBroadcaster;

#[test]
fn tap_tempo_uses_short_rolling_window() {
    let mut beat = BeatBroadcaster::default();
    beat.add_tap(0);
    beat.add_tap(500);
    beat.add_tap(1_000);
    beat.add_tap(1_500);
    beat.add_tap(2_100);

    assert_eq!(beat.beat_ms(), Some(533));
}

#[test]
fn tap_tempo_outlier_starts_fresh_window() {
    let mut beat = BeatBroadcaster::default();
    beat.add_tap(0);
    beat.add_tap(500);
    beat.add_tap(1_000);
    assert_eq!(beat.beat_ms(), Some(500));

    beat.add_tap(2_000);
    assert_eq!(beat.beat_ms(), Some(500));
    assert_eq!(beat.tap_counter_text(2_000), "1");

    beat.add_tap(3_000);
    assert_eq!(beat.beat_ms(), Some(500));
    beat.add_tap(4_000);
    assert_eq!(beat.beat_ms(), Some(1_000));
}

#[test]
fn tap_tempo_zero_interval_resets_window() {
    let mut beat = BeatBroadcaster::default();
    beat.add_tap(1_000);
    beat.add_tap(1_000);
    beat.add_tap(1_500);
    beat.add_tap(2_000);

    assert_eq!(beat.beat_ms(), Some(500));
}

#[test]
fn madmom_timeout_starts_a_new_window() {
    let mut beat = BeatBroadcaster::default();
    beat.report_madmom_beat(1_000, 1_000);
    beat.report_madmom_beat(1_500, 1_500);
    assert_eq!(beat.beat_ms(), Some(500));

    beat.report_madmom_beat(5_000, 5_000);
    assert_eq!(beat.beat_ms(), Some(500));
    beat.report_madmom_beat(5_250, 5_250);
    assert_eq!(beat.beat_ms(), Some(250));
}

#[test]
fn madmom_uses_short_rolling_window() {
    let mut beat = BeatBroadcaster::default();
    beat.report_madmom_beat(1_000, 1_000);
    beat.report_madmom_beat(1_400, 1_400);
    beat.report_madmom_beat(1_800, 1_800);
    beat.report_madmom_beat(2_200, 2_200);
    beat.report_madmom_beat(2_650, 2_650);

    assert_eq!(beat.beat_ms(), Some(400));

    beat.report_madmom_beat(3_100, 3_100);
    assert_eq!(beat.beat_ms(), Some(450));
}

#[test]
fn madmom_outlier_starts_fresh_window() {
    let mut beat = BeatBroadcaster::default();
    beat.report_madmom_beat(1_000, 1_000);
    beat.report_madmom_beat(1_400, 1_400);
    beat.report_madmom_beat(1_800, 1_800);
    assert_eq!(beat.beat_ms(), Some(400));

    beat.report_madmom_beat(2_800, 2_800);
    assert_eq!(beat.beat_ms(), Some(400));

    beat.report_madmom_beat(3_800, 3_800);
    assert_eq!(beat.beat_ms(), Some(1_000));
}

#[test]
fn madmom_backwards_timestamp_starts_a_new_window() {
    let mut beat = BeatBroadcaster::default();
    beat.report_madmom_beat(10_000, 10_000);
    beat.report_madmom_beat(10_500, 10_500);
    assert_eq!(beat.beat_ms(), Some(500));

    beat.report_madmom_beat(100, 11_000);
    assert_eq!(beat.beat_ms(), Some(500));
    beat.report_madmom_beat(500, 11_400);
    assert_eq!(beat.beat_ms(), Some(400));
}

#[test]
fn madmom_uses_median_interval() {
    let mut beat = BeatBroadcaster::default();
    beat.report_madmom_beat(1_000, 1_000);
    beat.report_madmom_beat(1_400, 1_400);
    beat.report_madmom_beat(1_800, 1_800);
    beat.report_madmom_beat(2_900, 2_900);
    beat.report_madmom_beat(3_300, 3_300);

    assert_eq!(beat.beat_ms(), Some(400));
}

#[test]
fn steady_taps_set_tempo_and_counter() {
    let mut beat = BeatBroadcaster::default();
    beat.add_tap(1_000);
    beat.add_tap(1_500);
    beat.add_tap(2_000);

    assert_eq!(beat.beat_ms(), Some(500));
    assert_eq!(beat.bpm_string(), "120");
    assert_eq!(beat.tap_counter_text(2_100), "3");
    assert!(beat.tap_counter_active(2_100));
    assert_eq!(beat.tap_counter_text(4_100), "Tap");
    assert!(!beat.tap_counter_active(4_100));
}

#[test]
fn reset_forgets_tempo() {
    let mut beat = BeatBroadcaster::default();
    beat.add_tap(1_000);
    beat.add_tap(1_500);
    beat.add_tap(2_000);
    assert_eq!(beat.bpm_string(), "120");

    beat.reset();

    assert_eq!(beat.beat_ms(), None);
    assert_eq!(beat.bpm_string(), "[none]");
}

#[test]
fn madmom_beats_replace_tap_window() {
    let mut beat = BeatBroadcaster::default();
    beat.add_tap(1_000);
    beat.add_tap(1_500);
    beat.add_tap(2_000);

    beat.report_madmom_beat(10_000, 5_000);
    beat.report_madmom_beat(10_400, 5_400);
    beat.report_madmom_beat(10_800, 5_800);

    assert_eq!(beat.beat_ms(), Some(400));
    let clock = beat.beat_clock().expect("madmom sets a clock");
    assert_eq!(clock.beat_ms(), 400);
    assert_eq!(clock.anchor_ms(), 5_800);
}

#[test]
fn link_period_sets_bpm() {
    let mut beat = BeatBroadcaster::default();
    beat.report_link_period(500, 10_000);
    assert_eq!(beat.beat_ms(), Some(500));
    assert_eq!(beat.bpm_string(), "120");
}

#[test]
fn late_tap_restarts_window() {
    let mut beat = BeatBroadcaster::default();
    beat.add_tap(1_000);
    beat.add_tap(1_600);
    assert_eq!(beat.beat_ms(), None);
    beat.add_tap(2_200);
    assert_eq!(beat.beat_ms(), Some(600));
    beat.add_tap(5_000);
    assert_eq!(beat.beat_ms(), Some(600));
    assert_eq!(beat.tap_counter_text(5_000), "1");
}

#[test]
fn interval_ratio_bounds() {
    assert!(!domers::beat::interval_outside_ratio(500, 500));
    assert!(domers::beat::interval_outside_ratio(1_000, 500));
    assert!(domers::beat::interval_outside_ratio(200, 500));
}

#[test]
fn bpm_string_truncates() {
    let mut beat = BeatBroadcaster::default();
    beat.report_link_period(533, 0);
    assert_eq!(beat.bpm_string(), "112");
}

// Beat progress is a fraction computed outside the library; where the
// original asserts a progress value, the clock's period and anchor that
// determine it are asserted instead.

#[test]
fn tap_tempo_sets_average_beat_length() {
    let mut beat = BeatBroadcaster::new();
    beat.add_tap(1_000);
    beat.add_tap(1_500);
    beat.add_tap(2_000);

    assert_eq!(beat.beat_ms(), Some(500));
    assert_eq!(beat.bpm_string(), "120");
    assert_eq!(beat.tap_counter_text(2_100), "3");
    assert!(beat.tap_counter_active(2_100));
    assert_eq!(beat.tap_counter_text(4_100), "Tap");
    // At 2250 the clock (500 ms from 2000) is half way through its beat.
    let clock = beat.beat_clock().unwrap();
    assert_eq!((clock.beat_ms(), clock.anchor_ms()), (500, 2_000));
    assert_eq!(2 * ((2_250 - clock.anchor_ms()) % clock.beat_ms()), clock.beat_ms());
}

#[test]
fn reset_clears_tempo_state() {
    let mut beat = BeatBroadcaster::new();
    beat.add_tap(1_000);
    beat.add_tap(1_500);
    beat.add_tap(2_000);
    assert_eq!(beat.bpm_string(), "120");

    beat.reset();

    assert_eq!(beat.beat_ms(), None);
    assert_eq!(beat.bpm_string(), "[none]");
    // No clock: progress reads zero.
    assert!(beat.beat_clock().is_none());
}

#[test]
fn madmom_beats_replace_tap_window_with_realtime_anchor() {
    let mut beat = BeatBroadcaster::new();
    beat.add_tap(1_000);
    beat.add_tap(1_500);
    beat.add_tap(2_000);

    beat.report_madmom_beat(10_000, 5_000);
    beat.report_madmom_beat(10_400, 5_400);
    beat.report_madmom_beat(10_800, 5_800);

    assert_eq!(beat.beat_ms(), Some(400));
    // At 6000 the clock (400 ms from 5800) is half way through its beat.
    let clock = beat.beat_clock().unwrap();
    assert_eq!((clock.beat_ms(), clock.anchor_ms()), (400, 5_800));
    assert_eq!(2 * ((6_000 - clock.anchor_ms()) % clock.beat_ms()), clock.beat_ms());
}
