use rqcore::calendar::{add_days, days_in_month_exec, is_valid_date, next_date_exec, parse_date, parse_date_prefix, render_date, Date};

fn d(year: i32, month: u8, day: u8) -> Date {
    Date { year, month, day }
}

#[test]
fn parse_valid_dates() {
    assert_eq!(parse_date("2025-10-15"), Some(d(2025, 10, 15)));
    assert_eq!(parse_date("1999-01-01"), Some(d(1999, 1, 1)));
    assert_eq!(parse_date("2024-02-29"), Some(d(2024, 2, 29)));
}

#[test]
fn parse_rejects_malformed() {
    assert_eq!(parse_date("2025-13-01"), None);
    assert_eq!(parse_date("2025-00-10"), None);
    assert_eq!(parse_date("2025-02-30"), None);
    assert_eq!(parse_date("2023-02-29"), None);
    assert_eq!(parse_date("2025/10/15"), None);
    assert_eq!(parse_date("2025-1-15"), None);
    assert_eq!(parse_date("20251015"), None);
    assert_eq!(parse_date(""), None);
    assert_eq!(parse_date("2025-10-15T12:00:00"), None);
}

#[test]
fn parse_prefix_takes_timestamp_date() {
    assert_eq!(parse_date_prefix("2025-10-15T12:00:23-04:00"), Some(d(2025, 10, 15)));
    assert_eq!(parse_date_prefix("2025-10-15"), Some(d(2025, 10, 15)));
    assert_eq!(parse_date_prefix("2025-10-1"), None);
    assert_eq!(parse_date_prefix("not a date at all"), None);
}

#[test]
fn render_roundtrip() {
    let date = d(2025, 3, 9);
    let s = render_date(&date);
    assert_eq!(s, "2025-03-09");
    assert_eq!(parse_date(&s), Some(date));
    assert_eq!(render_date(&d(987, 12, 31)), "0987-12-31");
}

#[test]
fn month_lengths() {
    assert_eq!(days_in_month_exec(2025, 2), 28);
    assert_eq!(days_in_month_exec(2024, 2), 29);
    assert_eq!(days_in_month_exec(2000, 2), 29);
    assert_eq!(days_in_month_exec(1900, 2), 28);
    assert_eq!(days_in_month_exec(2025, 4), 30);
    assert_eq!(days_in_month_exec(2025, 12), 31);
}

#[test]
fn date_successor_and_addition() {
    assert_eq!(next_date_exec(&d(2025, 1, 31)), d(2025, 2, 1));
    assert_eq!(next_date_exec(&d(2025, 12, 31)), d(2026, 1, 1));
    assert_eq!(next_date_exec(&d(2024, 2, 28)), d(2024, 2, 29));
    assert_eq!(add_days(&d(2025, 10, 30), 3), d(2025, 11, 2));
    assert_eq!(add_days(&d(2025, 10, 1), 0), d(2025, 10, 1));
}

#[test]
fn validity_check() {
    assert!(is_valid_date(&d(2025, 6, 30)));
    assert!(!is_valid_date(&d(2025, 6, 31)));
    assert!(!is_valid_date(&d(2025, 0, 1)));
    assert!(!is_valid_date(&d(2025, 1, 0)));
}
