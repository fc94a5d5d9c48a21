use footical::datetime::LocalDateTime;
use footical::schedule::{next_scrape_at, scheduled_wait, scrape_hour, sleep_before};

fn at(y: i32, mo: u32, d: u32, h: u32, mi: u32) -> LocalDateTime {
    LocalDateTime::new(y, mo, d, h, mi, 0, 0).unwrap()
}

#[test]
fn the_scrape_hour_setting() {
    assert_eq!(scrape_hour(None), 1);
    assert_eq!(scrape_hour(Some("3")), 3);
    assert_eq!(scrape_hour(Some("+4")), 4);
    assert_eq!(scrape_hour(Some("-0")), 1);
    assert_eq!(scrape_hour(Some("three")), 1);
    assert_eq!(scrape_hour(Some("4294967296")), 1);
}

#[test]
fn the_next_scrape_is_today_if_still_ahead() {
    assert_eq!(next_scrape_at(&at(2025, 6, 7, 0, 30), 1), at(2025, 6, 7, 1, 0));
    assert_eq!(next_scrape_at(&at(2025, 6, 7, 1, 0), 1), at(2025, 6, 8, 1, 0));
    assert_eq!(next_scrape_at(&at(2025, 12, 31, 23, 0), 1), at(2026, 1, 1, 1, 0));
}

#[test]
fn the_wait_until_the_next_scrape() {
    assert_eq!(sleep_before(&at(2025, 6, 7, 1, 0), &at(2025, 6, 7, 0, 30)), (1800, 0));
    assert_eq!(sleep_before(&at(2025, 6, 7, 0, 0), &at(2025, 6, 7, 0, 30)), (3600, 0));
}

#[test]
fn a_round_waits_for_the_next_scrape() {

    let now = at(2025, 6, 7, 0, 30);
    let (next, wait) = scheduled_wait(&now, 1);
    assert_eq!(next, at(2025, 6, 7, 1, 0));
    assert_eq!(wait, (1800, 0));
    let (next, wait) = scheduled_wait(&at(2025, 6, 7, 2, 0), 1);
    assert_eq!(next, at(2025, 6, 8, 1, 0));
    assert_eq!(wait, (23 * 3600, 0));
}

#[test]
fn the_next_scrape_in_the_earliest_year() {
    let now = at(-262143, 1, 1, 5, 0);
    assert_eq!(next_scrape_at(&now, 1), at(-262143, 1, 2, 1, 0));
}
