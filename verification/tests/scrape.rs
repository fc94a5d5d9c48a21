use footical::ingest::stale_fixtures_statement;
use footical::parse::{FixtureData, LeagueEndpoint, LeagueGroupData};
use footical::scrape::{
    distinct_venue_keys, division_upserts, find_league_url, fixture_source_key, fixture_upserts,
    league_group_source_key, league_group_url, league_upsert, league_url, team_source_key,
    venue_url, ScrapeCounts,
};

fn group(id: &str, venue: Option<&str>, endpoints: Vec<(&str, Option<&str>)>) -> LeagueGroupData {
    LeagueGroupData {
        league_group_name: format!("Group {id}"),
        league_group_id: id.to_string(),
        league_endpoints: endpoints
            .into_iter()
            .map(|(league_id, name)| LeagueEndpoint {
                league_id: league_id.to_string(),
                league_name: name.map(|n| n.to_string()),
            })
            .collect(),
        venue_source_key: venue.map(|v| v.to_string()),
        number_of_players: Some(5),
        day_of_week: Some(1),
        starts_at: Some("18:00".to_string()),
        ends_at: Some("22:00".to_string()),
        price_text: Some("45.00".to_string()),
    }
}

fn fixture_data(home: i32, away: i32) -> FixtureData {
    FixtureData {
        fixture_date: "2025-06-07 19:00".to_string(),
        mundial_home_team_id: home,
        mundial_home_team_name: format!("Team {home}"),
        mundial_away_team_id: away,
        mundial_away_team_name: format!("Team {away}"),
    }
}

#[test]
fn addresses_of_the_league_site() {
    assert_eq!(find_league_url(), "https://footballmundial.com/find_league");
    assert_eq!(league_group_url("/info/leaguegroups/3"), "https://footballmundial.com/info/leaguegroups/3");
    assert_eq!(venue_url("12"), "https://footballmundial.com/info/venues/12");
    assert_eq!(league_url("77"), "https://footballmundial.com/info/leagues/77");
    assert_eq!(league_group_source_key("3"), "https://footballmundial.com/info/leaguegroups/3");
    assert_eq!(team_source_key(9), "https://footballmundial.com/info/teams/9");
    assert_eq!(fixture_source_key("77", &fixture_data(9, 10)), "77-9-10-2025-06-07 19:00");
}

#[test]
fn venues_are_fetched_once_each() {
    let groups = vec![group("1", Some("v1"), vec![]), group("2", None, vec![]), group("3", Some("v1"), vec![]), group("4", Some("v2"), vec![])];
    assert_eq!(distinct_venue_keys(&groups), vec!["v1".to_string(), "v2".to_string()]);
}

#[test]
fn a_group_is_stored_as_a_league_and_divisions() {
    let g = group("3", Some("v1"), vec![("77", Some("Premier")), ("78", None)]);
    let league = league_upsert(&g);
    assert_eq!(league.source_key, "https://footballmundial.com/info/leaguegroups/3");
    assert_eq!(league.venue_source_key, "https://footballmundial.com/info/venues/v1");
    assert_eq!(league.price_text, Some("45.00".to_string()));
    let no_venue = league_upsert(&group("4", None, vec![]));
    assert_eq!(no_venue.venue_source_key, "");
    let divisions = division_upserts(&g);
    assert_eq!(divisions.len(), 2);
    assert_eq!(divisions[0].name, "Premier");
    assert_eq!(divisions[0].source_key, "https://footballmundial.com/info/leagues/77");
    assert_eq!(divisions[1].name, "Group 3");
    assert_eq!(divisions[1].league_id, "78");
    assert_eq!(divisions[1].league_source_key, league.source_key);
}

#[test]
fn fixtures_are_stored_with_their_teams() {
    let upserts = fixture_upserts("77", "div-key", &[fixture_data(9, 10)]);
    assert_eq!(upserts.len(), 1);
    let u = &upserts[0];
    assert_eq!(u.home_team_source_key, "https://footballmundial.com/info/teams/9");
    assert_eq!(u.away_team_name, "Team 10");
    assert_eq!(u.division_source_key, "div-key");
    assert_eq!(u.scheduled_at, "2025-06-07 19:00");
    assert_eq!(u.source_key, "77-9-10-2025-06-07 19:00");
}

#[test]
fn stale_fixture_statements() {
    assert_eq!(
        stale_fixtures_statement(0),
        "DELETE FROM fixture\n             WHERE division_id = (SELECT division_id FROM division WHERE source_key = ?)"
    );
    assert!(stale_fixtures_statement(3).ends_with("AND source_key NOT IN (?, ?, ?)"));
}

#[test]
fn counts_pair_teams_with_fixtures() {
    let mut counts = ScrapeCounts::new();
    counts.add_venue();
    counts.add_league();
    counts.add_division();
    counts.add_fixture();
    counts.add_fixture();
    counts.add_stale_deleted(4);
    assert_eq!(counts.venues_upserted(), 1);
    assert_eq!(counts.leagues_upserted(), 1);
    assert_eq!(counts.divisions_upserted(), 1);
    assert_eq!(counts.fixtures_upserted(), 2);
    assert_eq!(counts.teams_upserted(), 4);
    assert_eq!(counts.stale_fixtures_deleted(), 4);
}
