use electrical_grid_core::calendar::{
    calendar_phases, round_up_to_nearest_15_minutes, timestamp_from_position, year_query_interval,
    MAX_CALENDAR_TIMESTAMP, MIN_CALENDAR_TIMESTAMP,
};
use electrical_grid_core::errors::PredictionError;

#[test]
fn phases_at_the_epoch() {
    let p = calendar_phases(0).unwrap();
    assert_eq!(p.day_of_year, 1);
    assert_eq!(p.minute_of_day, 0);
}

#[test]
fn phases_of_a_known_instant() {
    // 2023-06-15T10:30:00Z
    let p = calendar_phases(1_686_825_000).unwrap();
    assert_eq!(p.day_of_year, 166);
    assert_eq!(p.minute_of_day, 10 * 60 + 30);
}

#[test]
fn phases_of_a_leap_day() {
    // 2024-02-29T23:45:00Z; 2024 is a leap year
    let p = calendar_phases(1_709_250_300).unwrap();
    assert_eq!(p.day_of_year, 60);
    assert_eq!(p.minute_of_day, 1425);
}

#[test]
fn phases_before_the_epoch() {
    // 1969-12-31T23:59:00Z
    let p = calendar_phases(-60).unwrap();
    assert_eq!(p.day_of_year, 365);
    assert_eq!(p.minute_of_day, 1439);
}

#[test]
fn phases_at_the_calendar_bounds() {
    let lo = calendar_phases(MIN_CALENDAR_TIMESTAMP).unwrap();
    assert_eq!(lo.day_of_year, 1);
    assert_eq!(lo.minute_of_day, 0);
    let hi = calendar_phases(MAX_CALENDAR_TIMESTAMP).unwrap();
    assert_eq!(hi.day_of_year, 365);
    assert_eq!(hi.minute_of_day, 1439);
}

#[test]
fn phases_outside_the_calendar_fail() {
    assert_eq!(
        calendar_phases(MAX_CALENDAR_TIMESTAMP + 1),
        Err(PredictionError::TimestampConversionError)
    );
    assert_eq!(
        calendar_phases(MIN_CALENDAR_TIMESTAMP - 1),
        Err(PredictionError::TimestampConversionError)
    );
    assert_eq!(calendar_phases(i64::MAX), Err(PredictionError::TimestampConversionError));
    assert_eq!(calendar_phases(i64::MIN), Err(PredictionError::TimestampConversionError));
}

#[test]
fn minute_phase_is_periodic_with_one_day() {
    let ts = 1_686_825_000; // 2023-06-15T10:30:00Z
    let a = calendar_phases(ts).unwrap();
    let b = calendar_phases(ts + 86_400).unwrap();
    assert_eq!(a.minute_of_day, b.minute_of_day);
}

#[test]
fn day_phase_is_periodic_with_365_days_from_a_common_year() {
    let ts = 1_686_825_000; // 2023-06-15T10:30:00Z, 2023 is a common year
    let a = calendar_phases(ts).unwrap();
    let b = calendar_phases(ts + 365 * 86_400).unwrap();
    assert_eq!(a.day_of_year, b.day_of_year);
    assert_eq!(a.minute_of_day, b.minute_of_day);
}

#[test]
fn sinusoidal_encodings_stay_bounded_and_periodic() {
    let ts = 1_686_825_000;
    let a = calendar_phases(ts).unwrap();
    let b = calendar_phases(ts + 365 * 86_400).unwrap();
    let day_sin_a = (2.0 * std::f32::consts::PI * a.day_of_year as f32 / 365.0).sin();
    let day_sin_b = (2.0 * std::f32::consts::PI * b.day_of_year as f32 / 365.0).sin();
    assert_eq!(day_sin_a, day_sin_b);
    let minute_sin_a = (2.0 * std::f32::consts::PI * a.minute_of_day as f32 / 1440.0).sin();
    for s in [day_sin_a, minute_sin_a] {
        assert!((-1.0..=1.0).contains(&s));
    }
}

#[test]
fn round_up_leaves_quarter_hours_alone() {
    let ts = 1_686_825_000; // minute of day 630, a quarter-hour mark
    assert_eq!(round_up_to_nearest_15_minutes(ts), ts);
}

#[test]
fn round_up_advances_to_the_next_quarter_hour() {
    // 2023-06-15T10:35:00Z -> 10:45:00Z
    assert_eq!(round_up_to_nearest_15_minutes(1_686_825_300), 1_686_825_900);
    // seconds are preserved: 10:35:30 -> 10:45:30
    assert_eq!(round_up_to_nearest_15_minutes(1_686_825_330), 1_686_825_930);
}

#[test]
fn round_up_crosses_midnight() {
    // 2023-06-15T23:59:10Z -> 2023-06-16T00:00:10Z
    let ts = 1_686_787_200 + 86_350;
    assert_eq!(round_up_to_nearest_15_minutes(ts), 1_686_787_200 + 86_410);
}

#[test]
fn positions_step_back_in_quarter_hours() {
    let anchor = 1_686_825_000;
    assert_eq!(timestamp_from_position(anchor, 19), anchor);
    assert_eq!(timestamp_from_position(anchor, 18), anchor - 900);
    assert_eq!(timestamp_from_position(anchor, 0), anchor - 900 * 19);
}

#[test]
fn year_intervals_reach_the_calendar_bounds() {
    let (start, _) = year_query_interval(-262143);
    assert_eq!(start, MIN_CALENDAR_TIMESTAMP);
    let (_, end) = year_query_interval(262142);
    assert_eq!(end, MAX_CALENDAR_TIMESTAMP);
}

#[test]
fn year_interval_spans_the_whole_year() {
    let (start, end) = year_query_interval(2023);
    assert_eq!(start, 1_672_531_200); // 2023-01-01T00:00:00Z
    assert_eq!(end, 1_704_067_199); // 2023-12-31T23:59:59Z
    let (start, end) = year_query_interval(2024); // leap year
    assert_eq!(start, 1_704_067_200);
    assert_eq!(end, start + 366 * 86_400 - 1);
}
