use footical::datetime::{push_compact, LocalDateTime};
use footical::folding::push_folded;
use footical::generate::{
    build_ical as export_ical, calendar_file_name, fixtures_for_team, team_calendars,
    utf8_boundary, TeamRow,
};
use footical::ical::{build_ical, escape_ical_text, FixtureRow};

fn at(y: i32, mo: u32, d: u32, h: u32, mi: u32) -> LocalDateTime {
    LocalDateTime::new(y, mo, d, h, mi, 0, 0).unwrap()
}

fn row(id: i32, home: i32, away: i32, when: LocalDateTime, status: &str) -> FixtureRow {
    FixtureRow {
        fixture_id: id,
        home_team_id: home,
        away_team_id: away,
        home_team_name: format!("Home {home}"),
        away_team_name: format!("Away {away}"),
        scheduled_at: when,
        status: status.to_string(),
        venue_name: Some("Arena".to_string()),
        venue_address: None,
    }
}

const PREAMBLE: &str = "BEGIN:VCALENDAR\r\nVERSION:2.0\r\nPRODID:-//footical.club//Footical//EN\r\nCALSCALE:GREGORIAN\r\nMETHOD:PUBLISH\r\n";

fn folded(line: &str) -> String {
    let mut out = Vec::new();
    push_folded(&mut out, &line.chars().collect());
    out.into_iter().collect()
}

#[test]
fn escaping_ical_text() {
    assert_eq!(escape_ical_text("a,b;c\\d\ne"), "a\\,b\\;c\\\\d\\ne");
    assert_eq!(escape_ical_text("plain"), "plain");
}

#[test]
fn short_lines_are_not_folded() {
    assert_eq!(folded("SUMMARY:short"), "SUMMARY:short\r\n");
    let exactly = "x".repeat(75);
    assert_eq!(folded(&exactly), format!("{exactly}\r\n"));
}

#[test]
fn long_lines_fold_at_75_then_74_octets() {
    let line = "y".repeat(160);
    let expected = format!("{}\r\n {}\r\n {}\r\n", "y".repeat(75), "y".repeat(74), "y".repeat(11));
    assert_eq!(folded(&line), expected);
}

#[test]
fn folding_never_splits_a_character() {
    let line = format!("{}é{}", "a".repeat(74), "b".repeat(10));
    let out = folded(&line);
    assert_eq!(out, format!("{}\r\n é{}\r\n", "a".repeat(74), "b".repeat(10)));
    for piece in out.split("\r\n") {
        assert!(piece.len() <= 75);
    }
}

#[test]
fn compact_date_times() {
    let mut out = Vec::new();
    push_compact(&mut out, &at(2025, 6, 7, 19, 5));
    assert_eq!(out.into_iter().collect::<String>(), "20250607T190500");
    let mut out = Vec::new();
    push_compact(&mut out, &LocalDateTime::new(-44, 3, 15, 0, 0, 59, 1_500_000_000).unwrap());
    assert_eq!(out.into_iter().collect::<String>(), "-00440315T000060");
}

#[test]
fn a_team_feed() {
    let fixture = row(12, 5, 6, at(2025, 6, 7, 19, 30), "postponed");
    let feed = build_ical("Rovers", 5, &[&fixture], "20250601T120000Z");
    let expected = format!(
        "{PREAMBLE}X-WR-CALNAME:Rovers Fixtures\r\nBEGIN:VTIMEZONE\r\nTZID:Europe/London\r\nBEGIN:STANDARD\r\nTZOFFSETFROM:+0100\r\nTZOFFSETTO:+0000\r\nTZNAME:GMT\r\nDTSTART:19701025T020000\r\nRRULE:FREQ=YEARLY;BYDAY=-1SU;BYMONTH=10\r\nEND:STANDARD\r\nBEGIN:DAYLIGHT\r\nTZOFFSETFROM:+0000\r\nTZOFFSETTO:+0100\r\nTZNAME:BST\r\nDTSTART:19700329T010000\r\nRRULE:FREQ=YEARLY;BYDAY=-1SU;BYMONTH=3\r\nEND:DAYLIGHT\r\nEND:VTIMEZONE\r\n\
BEGIN:VEVENT\r\nUID:fixture-12-5@footical.club\r\nDTSTAMP:20250601T120000Z\r\nDTSTART;TZID=Europe/London:20250607T193000\r\nDTEND;TZID=Europe/London:20250607T200500\r\nSUMMARY:Versus Away 6\r\nLOCATION:Arena\r\nSTATUS:CANCELLED\r\nEND:VEVENT\r\nEND:VCALENDAR\r\n"
    );
    assert_eq!(feed, expected);
}

#[test]
fn an_exported_calendar() {
    let mut fixture = row(3, 8, 5, at(2025, 12, 31, 23, 0), "scheduled");
    fixture.venue_address = Some("1 High St, Town".to_string());
    let calendar = export_ical("Rovers", 5, &[&fixture], "20250601T120000Z");
    let expected = format!(
        "{PREAMBLE}X-WR-CALNAME:Rovers Fixtures\r\nBEGIN:VEVENT\r\nUID:fixture-3-5@footical.club\r\nDTSTAMP:20250601T120000Z\r\nDTSTART:20251231T230000\r\nDTEND:20260101T003000\r\nSUMMARY:Home 8 vs Away 5\r\nLOCATION:1 High St\\, Town\r\nSTATUS:CONFIRMED\r\nEND:VEVENT\r\nEND:VCALENDAR\r\n"
    );
    assert_eq!(calendar, expected);
}

#[test]
fn each_team_gets_its_own_fixtures() {
    let fixtures = vec![
        row(1, 5, 6, at(2025, 6, 7, 19, 0), "scheduled"),
        row(2, 7, 8, at(2025, 6, 7, 20, 0), "scheduled"),
        row(3, 6, 5, at(2025, 6, 14, 19, 0), "scheduled"),
    ];
    let listed: Vec<i32> = fixtures_for_team(5, &fixtures).iter().map(|f| f.fixture_id).collect();
    assert_eq!(listed, vec![1, 3]);
    let teams = vec![
        TeamRow { team_id: 5, division_id: 1, name: "Five".to_string() },
        TeamRow { team_id: 9, division_id: 1, name: "Nine".to_string() },
    ];
    let files = team_calendars(&teams, &fixtures, "20250601T120000Z").unwrap();
    assert_eq!(files.len(), 2);
    assert_eq!(files[0].file_name, "5.ics");
    assert_eq!(files[0].content.matches("BEGIN:VEVENT").count(), 2);
    assert_eq!(files[1].file_name, "9.ics");
    assert_eq!(files[1].content.matches("BEGIN:VEVENT").count(), 0);
    assert_eq!(calendar_file_name(-4), "-4.ics");
}

#[test]
fn the_last_representable_day_cannot_end_a_fixture() {
    let fixtures = vec![row(1, 5, 6, at(262142, 12, 31, 23, 30), "scheduled")];
    let teams = vec![TeamRow { team_id: 5, division_id: 1, name: "Five".to_string() }];
    assert!(team_calendars(&teams, &fixtures, "x").is_none());
}

#[test]
fn utf8_boundaries() {
    let text = "aé".as_bytes();
    assert_eq!(utf8_boundary(text, 2), 1);
    assert_eq!(utf8_boundary(text, 3), 3);
    assert_eq!(utf8_boundary(text, 10), 3);
    assert_eq!(utf8_boundary(b"abc", 2), 2);
}

#[test]
fn a_folded_line_unfolds_to_the_line() {
    let line = format!("DESCRIPTION:{}", "é".repeat(70));
    let out = folded(&line);
    assert_eq!(out.replace("\r\n ", ""), format!("{line}\r\n"));
    let physical: Vec<&str> = out.trim_end_matches("\r\n").split("\r\n").collect();
    assert!(physical.len() > 1);
    for (i, l) in physical.iter().enumerate() {
        assert!(l.len() <= 75);
        if i > 0 {
            assert!(l.starts_with(' '));
        }
    }
}
