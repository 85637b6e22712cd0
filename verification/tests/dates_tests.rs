use gitprint::dates::{format_utc_from_secs, is_leap_year, parse_date_filter, unix_secs_to_date, unix_secs_to_ymd};

#[test]
fn parse_iso_date() {
    assert_eq!(parse_date_filter("2024-01-15").unwrap(), "2024-01-15");
    // ISO with a time component is truncated to the date.
    assert_eq!(parse_date_filter("2024-06-30T12:00:00Z").unwrap(), "2024-06-30");
}

#[test]
fn parse_relative_dates() {
    // "today" and "yesterday" produce plausible YYYY-MM-DD strings.
    let today = parse_date_filter("today").unwrap();
    assert_eq!(today.len(), 10);
    assert!(today.starts_with("20"));

    let yesterday = parse_date_filter("yesterday").unwrap();
    assert!(yesterday <= today);
}

#[test]
fn parse_n_days_ago() {
    let d = parse_date_filter("30 days ago").unwrap();
    assert_eq!(d.len(), 10);
    let today = parse_date_filter("today").unwrap();
    assert!(d <= today);
}

#[test]
fn parse_n_weeks_ago() {
    let d = parse_date_filter("2 weeks ago").unwrap();
    assert_eq!(d.len(), 10);
}

#[test]
fn parse_n_months_ago() {
    let d = parse_date_filter("1 month ago").unwrap();
    assert_eq!(d.len(), 10);
}

#[test]
fn parse_invalid_date_errors() {
    assert!(parse_date_filter("not a date").is_err());
    assert!(parse_date_filter("abc days ago").is_err());
}

#[test]
fn unix_secs_known_dates() {
    // 2024-01-01 00:00:00 UTC.
    assert_eq!(unix_secs_to_date(1_704_067_200), "2024-01-01");
    // 2000-03-01, the day after Feb 29 of the leap year 2000.
    assert_eq!(unix_secs_to_date(951_868_800), "2000-03-01");
}

#[test]
fn ymd_matches_date_string() {
    let (y, m, d) = unix_secs_to_ymd(1_704_067_200);
    assert_eq!((y, m, d), (2024, 1, 1));
    let (y2, m2, d2) = unix_secs_to_ymd(951_868_800);
    assert_eq!((y2, m2, d2), (2000, 3, 1));
}

#[test]
fn leap_year_rules() {
    assert!(is_leap_year(2000));
    assert!(!is_leap_year(1900));
    assert!(is_leap_year(2024));
    assert!(!is_leap_year(2023));
}

#[test]
fn utc_timestamp_format() {
    assert_eq!(format_utc_from_secs(1_704_067_200), "2024-01-01 00:00:00 UTC");
    assert_eq!(format_utc_from_secs(1_704_067_200 + 3661), "2024-01-01 01:01:01 UTC");
}
