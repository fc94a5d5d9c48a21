use footical::parse::{FixtureData, LeagueEndpoint, LeagueGroupData, VenueData};
use footical::scrape_steps::{Scrape, ScrapeStage, ScrapeStep};

fn group(id: &str, venue: Option<&str>, endpoints: Vec<(&str, Option<&str>)>) -> LeagueGroupData {
    LeagueGroupData {
        league_group_name: format!("Group {id}"),
        league_group_id: id.to_string(),
        league_endpoints: endpoints
            .into_iter()
            .map(|(league_id, name)| LeagueEndpoint {
                league_id: league_id.to_string(),
                league_name: name.map(|n| n.to_string()),
            })
            .collect(),
        venue_source_key: venue.map(|v| v.to_string()),
        number_of_players: Some(5),
        day_of_week: Some(1),
        starts_at: Some("18:00".to_string()),
        ends_at: Some("22:00".to_string()),
        price_text: Some("45.00".to_string()),
    }
}

fn fixture_data(home: i32, away: i32) -> FixtureData {
    FixtureData {
        fixture_date: "2025-06-07 19:00".to_string(),
        mundial_home_team_id: home,
        mundial_home_team_name: format!("Team {home}"),
        mundial_away_team_id: away,
        mundial_away_team_name: format!("Team {away}"),
    }
}

const SITE: &str = "https://footballmundial.com";

#[test]
fn a_scrape_walks_index_groups_venues_leagues_and_fixtures() {
    let mut scrape = Scrape::new();
    match scrape.step() {
        ScrapeStep::FetchLeagueIndex { url } => assert_eq!(url, format!("{SITE}/find_league")),
        _ => panic!("expected the league index"),
    }
    scrape.league_index_read(vec!["/info/leaguegroups/1".to_string(), "/info/leaguegroups/2".to_string()]);
    match scrape.step() {
        ScrapeStep::FetchLeagueGroup { url, path } => {
            assert_eq!(url, format!("{SITE}/info/leaguegroups/1"));
            assert_eq!(path, "/info/leaguegroups/1");
        }
        _ => panic!("expected the first group"),
    }
    scrape.league_group_read(group("1", Some("v1"), vec![("77", Some("Premier")), ("78", None)]));
    match scrape.step() {
        ScrapeStep::FetchLeagueGroup { path, .. } => assert_eq!(path, "/info/leaguegroups/2"),
        _ => panic!("expected the second group"),
    }
    scrape.league_group_read(group("2", None, vec![]));
    match scrape.step() {
        ScrapeStep::FetchVenue { url } => assert_eq!(url, format!("{SITE}/info/venues/v1")),
        _ => panic!("expected the venue"),
    }
    scrape.venue_read(VenueData { name: "Goals".to_string(), address: Some("1 High St".to_string()) });
    match scrape.step() {
        ScrapeStep::StoreVenue { source_key, name, address } => {
            assert_eq!(source_key, "v1");
            assert_eq!(name, "Goals");
            assert_eq!(address.as_deref(), Some("1 High St"));
        }
        _ => panic!("expected the venue to be stored"),
    }
    scrape.stored();
    match scrape.step() {
        ScrapeStep::StoreLeague(league) => {
            assert_eq!(league.source_key, format!("{SITE}/info/leaguegroups/1"));
            assert_eq!(league.venue_source_key, format!("{SITE}/info/venues/v1"));
        }
        _ => panic!("expected the first league"),
    }
    scrape.stored();
    match scrape.step() {
        ScrapeStep::StoreDivision(d) => {
            assert_eq!(d.name, "Premier");
            assert_eq!(d.source_key, format!("{SITE}/info/leagues/77"));
            assert_eq!(d.league_source_key, format!("{SITE}/info/leaguegroups/1"));
        }
        _ => panic!("expected the first division"),
    }
    scrape.stored();
    match scrape.step() {
        ScrapeStep::StoreDivision(d) => {
            assert_eq!(d.name, "Group 1");
            assert_eq!(d.league_id, "78");
        }
        _ => panic!("expected the second division"),
    }
    scrape.stored();
    match scrape.step() {
        ScrapeStep::StoreLeague(league) => assert_eq!(league.venue_source_key, ""),
        _ => panic!("expected the second league"),
    }
    scrape.stored();
    match scrape.step() {
        ScrapeStep::FetchFixtures { url, league_id } => {
            assert_eq!(url, format!("{SITE}/info/leagues/77"));
            assert_eq!(league_id, "77");
        }
        _ => panic!("expected the first fixture page"),
    }
    scrape.fixtures_read(vec![fixture_data(9, 10), fixture_data(11, 12)]);
    match scrape.step() {
        ScrapeStep::StoreFixture(f) => {
            assert_eq!(f.source_key, "77-9-10-2025-06-07 19:00");
            assert_eq!(f.home_team_source_key, format!("{SITE}/info/teams/9"));
            assert_eq!(f.division_source_key, format!("{SITE}/info/leagues/77"));
        }
        _ => panic!("expected the first fixture"),
    }
    scrape.stored();
    match scrape.step() {
        ScrapeStep::StoreFixture(f) => assert_eq!(f.source_key, "77-11-12-2025-06-07 19:00"),
        _ => panic!("expected the second fixture"),
    }
    scrape.stored();
    match scrape.step() {
        ScrapeStep::DeleteStale { division_source_key, active_source_keys } => {
            assert_eq!(division_source_key, format!("{SITE}/info/leagues/77"));
            assert_eq!(
                active_source_keys,
                vec!["77-9-10-2025-06-07 19:00".to_string(), "77-11-12-2025-06-07 19:00".to_string()]
            );
        }
        _ => panic!("expected the stale fixtures to be deleted"),
    }
    scrape.stale_deleted(3);
    match scrape.step() {
        ScrapeStep::FetchFixtures { league_id, .. } => assert_eq!(league_id, "78"),
        _ => panic!("expected the second fixture page"),
    }
    scrape.fixtures_read(vec![]);
    match scrape.step() {
        ScrapeStep::DeleteStale { division_source_key, active_source_keys } => {
            assert_eq!(division_source_key, format!("{SITE}/info/leagues/78"));
            assert!(active_source_keys.is_empty());
        }
        _ => panic!("expected the second division's stale fixtures to be deleted"),
    }
    scrape.stale_deleted(0);
    assert!(matches!(scrape.step(), ScrapeStep::Finished));
    assert_eq!(scrape.stage(), ScrapeStage::Done);

    let counts = scrape.counts();
    assert_eq!(counts.venues_upserted(), 1);
    assert_eq!(counts.leagues_upserted(), 2);
    assert_eq!(counts.divisions_upserted(), 2);
    assert_eq!(counts.fixtures_upserted(), 2);
    assert_eq!(counts.teams_upserted(), 4);
    assert_eq!(counts.stale_fixtures_deleted(), 3);
}

#[test]
fn an_empty_league_index_finishes_at_once() {
    let mut scrape = Scrape::new();
    scrape.league_index_read(vec![]);
    assert_eq!(scrape.stage(), ScrapeStage::Done);
    assert!(matches!(scrape.step(), ScrapeStep::Finished));
}

#[test]
fn groups_without_venues_or_leagues_finish_after_the_leagues() {
    let mut scrape = Scrape::new();
    scrape.league_index_read(vec!["/info/leaguegroups/5".to_string()]);
    scrape.league_group_read(group("5", None, vec![]));
    assert_eq!(scrape.stage(), ScrapeStage::StoreLeague(0));
    scrape.stored();
    assert_eq!(scrape.stage(), ScrapeStage::Done);
    assert_eq!(scrape.counts().leagues_upserted(), 1);
    assert_eq!(scrape.counts().venues_upserted(), 0);
}

#[test]
fn reports_out_of_turn_change_nothing() {
    let mut scrape = Scrape::new();
    scrape.stored();
    scrape.venue_read(VenueData { name: "Goals".to_string(), address: None });
    scrape.fixtures_read(vec![fixture_data(1, 2)]);
    scrape.stale_deleted(4);
    scrape.league_group_read(group("1", None, vec![]));
    assert_eq!(scrape.stage(), ScrapeStage::ReadLeagueIndex);
    assert_eq!(scrape.counts().stale_fixtures_deleted(), 0);
    assert_eq!(scrape.counts().fixtures_upserted(), 0);
}

#[test]
fn a_venue_shared_by_groups_is_read_once() {
    let mut scrape = Scrape::new();
    scrape.league_index_read(vec!["/a".to_string(), "/b".to_string()]);
    scrape.league_group_read(group("1", Some("v1"), vec![]));
    scrape.league_group_read(group("2", Some("v1"), vec![]));
    assert_eq!(scrape.stage(), ScrapeStage::ReadVenue(0));
    scrape.venue_read(VenueData { name: "Goals".to_string(), address: None });
    scrape.stored();
    assert_eq!(scrape.stage(), ScrapeStage::StoreLeague(0));
}
