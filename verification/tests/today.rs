use footical::datetime::LocalDateTime;
use footical::today::{group_by_league, today_line, TodayFixture};

fn fixture(id: i32, league: &str, division: &str, venue: Option<&str>, address: Option<&str>) -> TodayFixture {
    TodayFixture {
        fixture_id: id,
        scheduled_at: LocalDateTime::new(2025, 6, 7, 18, 0, 0, 0).unwrap(),
        status: "scheduled".to_string(),
        home_team_name: "Home".to_string(),
        away_team_name: "Away".to_string(),
        division_name: division.to_string(),
        league_name: league.to_string(),
        venue_name: venue.map(|v| v.to_string()),
        venue_address: address.map(|a| a.to_string()),
    }
}

#[test]
fn fixtures_are_grouped_by_league_then_division() {
    let fixtures = vec![
        fixture(1, "Monday", "Div 1", Some("Arena"), None),
        fixture(2, "Tuesday", "Div 1", None, Some("1 High St")),
        fixture(3, "Monday", "Div 2", Some("Other"), None),
        fixture(4, "Monday", "Div 1", Some("Ignored"), None),
    ];
    let groups = group_by_league(fixtures);
    assert_eq!(groups.len(), 2);
    assert_eq!(groups[0].0, "Monday");
    assert_eq!(groups[0].1.len(), 2);
    assert_eq!(groups[0].1[0].0, "Div 1");
    assert_eq!(groups[0].1[0].1, Some("Arena".to_string()));
    let ids: Vec<i32> = groups[0].1[0].2.iter().map(|f| f.fixture_id).collect();
    assert_eq!(ids, vec![1, 4]);
    assert_eq!(groups[0].1[1].0, "Div 2");
    assert_eq!(groups[1].0, "Tuesday");
    assert_eq!(groups[1].1[0].1, Some("1 High St".to_string()));
    let total: usize = groups.iter().map(|l| l.1.iter().map(|d| d.2.len()).sum::<usize>()).sum();
    assert_eq!(total, 4);
}

#[test]
fn no_fixtures_no_groups() {
    assert!(group_by_league(Vec::new()).is_empty());
}

#[test]
fn a_line_of_the_day() {
    let mut f = fixture(1, "Monday", "Div 1", None, None);
    f.status = "postponed".to_string();
    let line = today_line(&f);
    assert_eq!(line.time_label, "18:00");
    assert_eq!(line.teams, "Home vs Away");
    assert_eq!(line.status_badge, Some("POSTPONED".to_string()));
}
