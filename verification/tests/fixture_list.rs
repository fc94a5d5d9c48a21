use footical::datetime::LocalDateTime;
use footical::fixture_list::{
    fixture_line, listed_fixture_line, status_badge, upcoming_fixtures, upcoming_listed_fixtures,
    Fixture, ListedFixture,
};

fn at(y: i32, mo: u32, d: u32, h: u32, mi: u32) -> LocalDateTime {
    LocalDateTime::new(y, mo, d, h, mi, 0, 0).unwrap()
}

fn fixture(id: i32, home: i32, away: i32, when: LocalDateTime, status: &str) -> Fixture {
    Fixture {
        fixture_id: id,
        home_team_id: home,
        away_team_id: away,
        home_team_name: format!("Team {home}"),
        away_team_name: format!("Team {away}"),
        scheduled_at: when,
        status: status.to_string(),
    }
}

fn listed(id: i32, home: i32, away: i32, when: &str) -> ListedFixture {
    ListedFixture {
        fixture_id: id,
        home_team_id: home,
        away_team_id: away,
        home_team_name: format!("Team {home}"),
        away_team_name: format!("Team {away}"),
        scheduled_at: when.to_string(),
        status: "scheduled".to_string(),
    }
}

#[test]
fn upcoming_keeps_the_teams_future_fixtures() {
    let now = at(2025, 6, 7, 12, 0);
    let all = vec![
        fixture(1, 5, 6, at(2025, 6, 1, 19, 0), "scheduled"),
        fixture(2, 5, 6, at(2025, 6, 7, 12, 0), "scheduled"),
        fixture(3, 7, 5, at(2025, 6, 14, 19, 30), "scheduled"),
        fixture(4, 7, 8, at(2025, 6, 14, 19, 30), "scheduled"),
    ];
    let ids: Vec<i32> = upcoming_fixtures(&all, Some(5), &now).iter().map(|f| f.fixture_id).collect();
    assert_eq!(ids, vec![2, 3]);
    assert!(upcoming_fixtures(&all, None, &now).is_empty());
}

#[test]
fn listed_fixtures_need_a_readable_kick_off() {
    let now = at(2025, 6, 7, 12, 0);
    let all = vec![
        listed(1, 5, 6, "2025-06-08T19:00:00"),
        listed(2, 5, 6, "next tuesday"),
        listed(3, 5, 6, "2025-06-01T19:00:00"),
        listed(4, 6, 5, "2025-07-01T09:15:00"),
    ];
    let ids: Vec<i32> =
        upcoming_listed_fixtures(&all, Some(5), &now).iter().map(|f| f.fixture_id).collect();
    assert_eq!(ids, vec![1, 4]);
}

#[test]
fn kick_off_text_is_read() {
    let line = listed_fixture_line(&listed(1, 5, 6, "2025-06-08T19:05:09"), 5);
    assert_eq!((line.day_label.as_str(), line.time_label.as_str()), ("Sun 8 Jun", "19:05"));
    let line = listed_fixture_line(&listed(1, 5, 6, "2025-06-08 19:05"), 5);
    assert_eq!(line.day_label, "");
}

#[test]
fn labels_of_a_date_time() {
    let line = fixture_line(&fixture(1, 5, 6, at(2024, 12, 25, 9, 5), "scheduled"), 5);
    assert_eq!(line.day_label, "Wed 25 Dec");
    assert_eq!(line.time_label, "09:05");
    assert_eq!(line.status_badge, None);
}

#[test]
fn status_badges() {
    assert_eq!(status_badge("scheduled"), None);
    assert_eq!(status_badge("postponed"), Some("POSTPONED".to_string()));
    assert_eq!(status_badge("Scheduled"), Some("SCHEDULED".to_string()));
}

#[test]
fn fixture_seen_from_each_side() {
    let f = fixture(1, 5, 6, at(2025, 6, 7, 19, 30), "cancelled");
    let home = fixture_line(&f, 5);
    assert!(home.is_home);
    assert_eq!(home.opponent, "Team 6");
    assert_eq!(home.status_badge, Some("CANCELLED".to_string()));
    assert_eq!(home.day_label, "Sat 7 Jun");
    assert_eq!(home.time_label, "19:30");
    let away = fixture_line(&f, 6);
    assert!(!away.is_home);
    assert_eq!(away.opponent, "Team 5");
}

#[test]
fn listed_fixture_with_unreadable_kick_off_has_empty_labels() {
    let line = listed_fixture_line(&listed(2, 5, 6, "soon"), 6);
    assert_eq!(line.day_label, "");
    assert_eq!(line.time_label, "");
    assert_eq!(line.opponent, "Team 5");
    let line = listed_fixture_line(&listed(2, 5, 6, "2025-06-08T19:00:00"), 5);
    assert_eq!(line.day_label, "Sun 8 Jun");
    assert_eq!(line.time_label, "19:00");
}
