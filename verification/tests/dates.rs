use chrono::{Datelike, NaiveDate};
use lieutenant::util::is_stale;

fn day(y: i32, m: u32, d: u32) -> i32 {
    NaiveDate::from_ymd_opt(y, m, d).unwrap().num_days_from_ce()
}

#[test]
fn prices_go_stale_after_two_weeks() {
    let today = day(2020, 1, 20);
    assert!(!is_stale("2020-01-10", today));
    assert!(!is_stale("2020-01-06", today));
    assert!(is_stale("2020-01-05", today));
    assert!(is_stale("2019-12-31", today));
    assert!(!is_stale("2020-01-20", today));
}

#[test]
fn unreadable_dates_are_stale() {
    let today = day(2020, 1, 20);
    assert!(is_stale("", today));
    assert!(is_stale("2020-13-01", today));
    assert!(is_stale("yesterday", today));
}
