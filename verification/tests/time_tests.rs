use chrono::{DateTime, Utc};
use rss_aggregator::time::{
    Timestamp, CALENDAR_END, CALENDAR_START, NANOS_PER_SECOND, YEAR_0_START, YEAR_9999_END,
};

#[test]
fn instants_are_ordered_by_seconds_then_nanoseconds() {
    let early = Timestamp::new(10, 999_999_999);
    let late = Timestamp::new(11, 0);
    assert!(late.is_at_or_after(&early));
    assert!(!early.is_at_or_after(&late));
    assert!(early.is_at_or_after(&early));
    assert!(Timestamp::new(10, 5).is_at_or_after(&Timestamp::new(10, 4)));
    assert!(!Timestamp::new(10, 4).is_at_or_after(&Timestamp::new(10, 5)));
    assert!(Timestamp::new(-1, 0).is_at_or_after(&Timestamp::new(-2, 999_999_999)));
}

#[test]
fn a_leap_second_stands_before_the_next_second() {
    let leap = Timestamp::new(59, 1_500_000_000);
    let next = Timestamp::new(60, 0);
    assert!(next.is_at_or_after(&leap));
    assert!(!leap.is_at_or_after(&next));
    let a = DateTime::<Utc>::from_timestamp(59, 1_500_000_000).unwrap();
    let b = DateTime::<Utc>::from_timestamp(60, 0).unwrap();
    assert!(a < b);
}

#[test]
fn order_of_instants_is_the_order_of_the_date_library() {
    let samples: Vec<(i64, u32)> = vec![
        (0, 0),
        (0, 1),
        (1, 0),
        (-1, 999_999_999),
        (59, 1_999_999_999),
        (60, 0),
        (1_704_067_200, 0),
        (1_704_067_200, 500),
        (-62_167_219_200, 0),
        (253_402_300_799, 999_999_999),
    ];
    for &(s1, n1) in &samples {
        for &(s2, n2) in &samples {
            let a = DateTime::<Utc>::from_timestamp(s1, n1).unwrap();
            let b = DateTime::<Utc>::from_timestamp(s2, n2).unwrap();
            assert_eq!(Timestamp::new(s1, n1).is_at_or_after(&Timestamp::new(s2, n2)), a >= b);
        }
    }
}

#[test]
fn four_digit_years_run_from_year_0_to_year_9999() {
    assert!(Timestamp::new(YEAR_0_START, 0).fits_four_digit_year());
    assert!(!Timestamp::new(YEAR_0_START - 1, 0).fits_four_digit_year());
    assert!(Timestamp::new(YEAR_9999_END, 999_999_999).fits_four_digit_year());
    assert!(!Timestamp::new(YEAR_9999_END + 1, 0).fits_four_digit_year());
    assert!(Timestamp::new(0, 0).fits_four_digit_year());
    let first = DateTime::<Utc>::from_timestamp(YEAR_0_START, 0).unwrap();
    assert_eq!(first.to_rfc3339(), "0000-01-01T00:00:00+00:00");
    let last = DateTime::<Utc>::from_timestamp(YEAR_9999_END, 0).unwrap();
    assert_eq!(last.to_rfc3339(), "9999-12-31T23:59:59+00:00");
}

#[test]
fn nanoseconds_of_a_leap_second_need_the_last_second_of_a_minute() {
    assert!(Timestamp::new(59, 1_000_000_000).has_nanos_in_range());
    assert!(Timestamp::new(59, 1_999_999_999).has_nanos_in_range());
    assert!(!Timestamp::new(59, 2_000_000_000).has_nanos_in_range());
    assert!(!Timestamp::new(58, 1_000_000_000).has_nanos_in_range());
    assert!(Timestamp::new(-1, 1_000_000_000).has_nanos_in_range());
    assert!(!Timestamp::new(-2, 1_000_000_000).has_nanos_in_range());
    assert!(Timestamp::new(58, NANOS_PER_SECOND - 1).has_nanos_in_range());
    for &(secs, nanos) in &[
        (59i64, 1_000_000_000u32),
        (59, 1_999_999_999),
        (59, 2_000_000_000),
        (58, 1_000_000_000),
        (-1, 1_000_000_000),
        (-2, 1_000_000_000),
        (-61, 1_234_567_890),
        (0, 0),
    ] {
        assert_eq!(
            Timestamp::new(secs, nanos).fits_calendar(),
            DateTime::<Utc>::from_timestamp(secs, nanos).is_some()
        );
    }
}

#[test]
fn calendar_bounds_are_those_of_the_date_library() {
    assert_eq!(DateTime::<Utc>::MIN_UTC.timestamp(), CALENDAR_START);
    assert_eq!(DateTime::<Utc>::MAX_UTC.timestamp(), CALENDAR_END);
    assert!(DateTime::<Utc>::from_timestamp(CALENDAR_START, 0).is_some());
    assert!(DateTime::<Utc>::from_timestamp(CALENDAR_START - 1, 0).is_none());
    assert!(DateTime::<Utc>::from_timestamp(CALENDAR_END, 999_999_999).is_some());
    assert!(DateTime::<Utc>::from_timestamp(CALENDAR_END + 1, 0).is_none());
    assert!(Timestamp::new(CALENDAR_START, 0).fits_calendar());
    assert!(!Timestamp::new(CALENDAR_START - 1, 0).fits_calendar());
    assert!(Timestamp::new(CALENDAR_END, 0).fits_calendar());
    assert!(!Timestamp::new(CALENDAR_END + 1, 0).fits_calendar());
}
