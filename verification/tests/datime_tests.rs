use monkey_lexer::datime::{DateTime, Region, SECONDS_IN_DAY, SECONDS_IN_MINUTE};

fn sample() -> DateTime {
    DateTime::from_parts(Region::Utc, 1709802330, 2024, 3, 7, 9, 5, 30, 4, 66)
}

#[test]
fn accessors_return_the_stored_fields() {
    let dt = sample();
    assert_eq!(dt.timestamp(), 1709802330);
    assert_eq!(dt.year(), 2024);
    assert_eq!(dt.day_of_year(), 67);
    assert_eq!(dt.day_of_week(), 4);
    assert!(dt.is_utc());
    assert!(!dt.is_local());
}

#[test]
fn sunday_is_day_seven() {
    let dt = DateTime::from_parts(Region::Local, 0, 1970, 1, 4, 0, 0, 0, 0, 3);
    assert_eq!(dt.day_of_week(), 7);
    assert!(dt.is_local());
    assert!(!dt.is_utc());
}

#[test]
fn week_of_year_formula() {
    // yday 0: (0 + 1) / 7 = 0, divisible by seven, stays 0.
    let dt = DateTime::from_parts(Region::Utc, 0, 1970, 1, 1, 0, 0, 0, 4, 0);
    assert_eq!(dt.week_of_year(), 0);
    // yday 13: (13 + 1) / 7 = 2, not divisible by seven, becomes 3.
    let dt = DateTime::from_parts(Region::Utc, 0, 1970, 1, 14, 0, 0, 0, 3, 13);
    assert_eq!(dt.week_of_year(), 3);
    // yday 48: (48 + 1) / 7 = 7, divisible by seven, stays 7.
    let dt = DateTime::from_parts(Region::Utc, 0, 1970, 2, 18, 0, 0, 0, 3, 48);
    assert_eq!(dt.week_of_year(), 7);
}

#[test]
fn as_string_pads_every_field_but_the_year() {
    let dt = sample();
    assert_eq!(dt.as_string(), "2024/03/07 09:05:30");
    let dt = DateTime::from_parts(Region::Utc, 0, 1970, 12, 31, 23, 59, 58, 4, 364);
    assert_eq!(dt.as_string(), "1970/12/31 23:59:58");
    let dt = DateTime::from_parts(Region::Utc, 0, 7, 1, 2, 0, 0, 9, 1, 1);
    assert_eq!(dt.as_string(), "7/01/02 00:00:09");
}

#[test]
fn timestamp_shifts() {
    let dt = sample();
    assert_eq!(dt.timestamp_plus_seconds(30), Some(1709802360));
    assert_eq!(dt.timestamp_plus_seconds(-30), Some(1709802300));
    assert_eq!(dt.timestamp_plus_minutes(2), Some(1709802330 + 2 * SECONDS_IN_MINUTE));
    assert_eq!(dt.timestamp_plus_days(1), Some(1709802330 + SECONDS_IN_DAY));
}

#[test]
fn timestamp_shifts_report_overflow() {
    let dt = DateTime::from_parts(Region::Utc, i64::MAX, 2024, 1, 1, 0, 0, 0, 1, 0);
    assert_eq!(dt.timestamp_plus_seconds(1), None);
    assert_eq!(dt.timestamp_plus_seconds(0), Some(i64::MAX));
    assert_eq!(dt.timestamp_plus_minutes(1), None);
    assert_eq!(dt.timestamp_plus_days(1), None);
    let dt = DateTime::from_parts(Region::Utc, 0, 1970, 1, 1, 0, 0, 0, 4, 0);
    assert_eq!(dt.timestamp_plus_minutes(i64::MAX / 2), None);
    assert_eq!(dt.timestamp_plus_days(i64::MIN / 2), None);
}
