use footical::datetime::LocalDateTime;
use footical::month_view::{is_today, month_cells, month_title, next_month, previous_month};
use footical::squad::{squad_fixture_line, SquadFixture};

/// The weekday of the first of a month, Monday being 0, as the month's grid places it.
fn first_weekday(year: i32, month: u32) -> usize {
    month_cells(year, month).iter().position(|c| *c == Some(1)).unwrap()
}

/// The weekday abbreviation the library writes for a date.
fn day_name(year: i32, month: u32, day: u32) -> String {
    let f = SquadFixture {
        squad_fixture_id: 1,
        competition: String::new(),
        kicks_off_at: LocalDateTime::new(year, month, day, 12, 0, 0, 0).unwrap(),
        is_home: true,
        opponent: String::new(),
        venue: None,
    };
    squad_fixture_line(&f).day_label[..3].to_string()
}

#[test]
fn stepping_between_months() {
    assert_eq!(previous_month(2025, 1), (2024, 12));
    assert_eq!(previous_month(2025, 6), (2025, 5));
    assert_eq!(next_month(2025, 12), (2026, 1));
    assert_eq!(next_month(2025, 6), (2025, 7));
}

#[test]
fn a_step_back_and_forth_returns() {
    for month in 1..=12u32 {
        let (y, m) = previous_month(2025, month);
        assert_eq!(next_month(y, m), (2025, month));
        let (y, m) = next_month(2025, month);
        assert_eq!(previous_month(y, m), (2025, month));
    }
}

#[test]
fn weekdays_from_monday() {
    assert_eq!(first_weekday(2024, 1), 0);
    assert_eq!(first_weekday(2025, 3), 5);
    assert_eq!(first_weekday(2025, 6), 6);
    assert_eq!(first_weekday(1970, 1), 3);
    assert_eq!(first_weekday(1, 1), 0);
    assert_eq!(first_weekday(0, 1), 5);
    assert_eq!(day_name(-1, 12, 31), "Fri");
    assert_eq!(day_name(2025, 6, 7), "Sat");
}

#[test]
fn leap_february_grid() {
    let cells = month_cells(2024, 2);
    assert_eq!(cells.len(), 35);
    assert_eq!(&cells[..4], &[None, None, None, Some(1)]);
    assert_eq!(cells[31], Some(29));
    assert_eq!(&cells[32..], &[None, None, None]);
}

#[test]
fn month_starting_on_sunday_takes_six_weeks() {
    let cells = month_cells(2025, 6);
    assert_eq!(cells.len(), 42);
    assert_eq!(cells[6], Some(1));
    assert_eq!(cells[35], Some(30));
    assert!(cells[36..].iter().all(|c| c.is_none()));
}

#[test]
fn month_starting_on_monday() {
    let cells = month_cells(2024, 1);
    assert_eq!(cells[0], Some(1));
    assert_eq!(cells.len(), 35);
    assert_eq!(cells.len() % 7, 0);
}

#[test]
fn today_is_marked_only_in_its_month() {
    assert!(is_today(Some(9), 2025, 6, 2025, 6, 9));
    assert!(!is_today(Some(9), 2025, 7, 2025, 6, 9));
    assert!(!is_today(None, 2025, 6, 2025, 6, 9));
}

#[test]
fn month_titles() {
    assert_eq!(month_title(2025, 6), "June 2025");
    assert_eq!(month_title(987, 1), "January 0987");
    assert_eq!(month_title(12345, 12), "December +12345");
    assert_eq!(month_title(-5, 3), "March -0005");
    assert_eq!(month_title(0, 2), "February 0000");
}

fn is_leap(year: i64) -> bool {
    (year % 4 == 0 && year % 100 != 0) || year % 400 == 0
}

fn month_length(year: i64, month: i64) -> i64 {
    match month {
        2 => if is_leap(year) { 29 } else { 28 },
        4 | 6 | 9 | 11 => 30,
        _ => 31,
    }
}

/// The weekday the library states for a date: days counted from 1 January of year 1, a Monday.
fn stated_weekday(year: i64, month: i64, day: i64) -> i64 {
    let p = year - 1;
    let before_year = 365 * p + p.div_euclid(4) - p.div_euclid(100) + p.div_euclid(400);
    let before_month: i64 = (1..month).map(|m| month_length(year, m)).sum();
    (before_year + before_month + day - 1).rem_euclid(7)
}

#[test]
fn weekdays_agree_with_the_stated_count_over_many_years() {
    let names = ["Mon", "Tue", "Wed", "Thu", "Fri", "Sat", "Sun"];
    for year in (-2000..=2400).step_by(7) {
        for month in 1..=12u32 {
            let stated = stated_weekday(year as i64, month as i64, 1);
            assert_eq!(first_weekday(year, month) as i64, stated, "{year}-{month}");
            for day in [13u32, 28] {
                let stated = stated_weekday(year as i64, month as i64, day as i64);
                assert_eq!(day_name(year, month, day), names[stated as usize], "{year}-{month}-{day}");
            }
        }
    }
    assert_eq!(day_name(262142, 12, 31), names[stated_weekday(262142, 12, 31) as usize]);
    assert_eq!(first_weekday(-262143, 1) as i64, stated_weekday(-262143, 1, 1));
}
