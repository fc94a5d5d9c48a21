use footical::parse::{
    parse_league_fixtures, parse_league_group, parse_league_group_ids, parse_venue,
};

#[test]
fn league_group_ids_keep_only_league_group_options() {
    let html = r#"<html><body><select>
        <option value="">Pick</option>
        <option value="/info/leaguegroups/12">North</option>
        <option>No value</option>
        <option value="/info/leagues/4">Not a group</option>
        <option value="/info/leaguegroups/30">South</option>
    </select></body></html>"#;
    let ids = parse_league_group_ids(html).unwrap();
    assert_eq!(ids, vec!["/info/leaguegroups/12".to_string(), "/info/leaguegroups/30".to_string()]);
}

#[test]
fn league_group_ids_of_an_empty_page() {
    assert_eq!(parse_league_group_ids("").unwrap(), Vec::<String>::new());
}

#[test]
fn venue_name_and_address() {
    let html = "<html><body><h2>  Powerleague Shoreditch </h2>\
        <div class=\"container_fluid\"><div class=\"container\"><div class=\"panel-body\"><div><div><div>\
        <div class=\"col-lg-2 col-md-3 col-sm-3 col-xs-12\">Address\n\nGodfrey Place\n\nLondon E2 7NT\n\n</div>\
        </div></div></div></div></div></div></body></html>";
    let venue = parse_venue(html).unwrap();
    assert_eq!(venue.name, "POWERLEAGUE SHOREDITCH");
    assert_eq!(venue.address, Some("GODFREY PLACE, LONDON E2 7NT".to_string()));
}

#[test]
fn venue_without_heading_or_address() {
    let venue = parse_venue("<p>nothing</p>").unwrap();
    assert_eq!(venue.name, "");
    assert_eq!(venue.address, None);
}

#[test]
fn league_group_page() {
    let html = r#"<html><body>
        <h1> Monday Night 5s </h1>
        <a href="/info/leagues/101">Division 1</a>
        <a href="/info/venues/77">Venue</a>
        <a href="/info/leagues/102">Division 2</a>
        <h4 class="panel-title">Premier  View Fixtures & Results [/info/leagues/101]</h4>
        <h4 class="panel-title">Extra  View Fixtures & Results [/info/leagues/205]</h4>
        <p><b>Day:</b> Monday</p>
        <p><b>Game Times:</b> 18:00 - 22:00</p>
        <p><b>Game Price:</b> £45.50</p>
        <p><b>Number of Players:</b> 5</p>
    </body></html>"#;
    let group = parse_league_group(html, "/info/leaguegroups/42").unwrap();
    assert_eq!(group.league_group_name, "MONDAY NIGHT 5S");
    assert_eq!(group.league_group_id, "42");
    assert_eq!(group.venue_source_key, Some("77".to_string()));
    assert_eq!(group.day_of_week, Some(1));
    assert_eq!(group.starts_at, Some("18:00".to_string()));
    assert_eq!(group.ends_at, Some("22:00".to_string()));
    assert_eq!(group.price_text, Some("45.50".to_string()));
    assert_eq!(group.number_of_players, Some(5));
    let endpoints: Vec<(String, Option<String>)> = group
        .league_endpoints
        .iter()
        .map(|e| (e.league_id.clone(), e.league_name.clone()))
        .collect();
    assert_eq!(
        endpoints,
        vec![
            ("101".to_string(), Some("PREMIER".to_string())),
            ("102".to_string(), None),
            ("205".to_string(), Some("EXTRA".to_string())),
        ]
    );
}

#[test]
fn league_group_page_without_schedule() {
    let group = parse_league_group("<html></html>", "plain").unwrap();
    assert_eq!(group.league_group_name, "");
    assert_eq!(group.league_group_id, "plain");
    assert!(group.league_endpoints.is_empty());
    assert_eq!(group.venue_source_key, None);
    assert_eq!(group.day_of_week, None);
    assert_eq!(group.starts_at, None);
    assert_eq!(group.ends_at, None);
    assert_eq!(group.price_text, None);
    assert_eq!(group.number_of_players, None);
}

#[test]
fn league_group_day_and_single_time() {
    let html = "<b>Day:</b> Funday<br><b>Game Times:</b> 19:30<br><b>Number of Players:</b> 99999999999";
    let group = parse_league_group(html, "/a/b/").unwrap();
    assert_eq!(group.league_group_id, "");
    assert_eq!(group.day_of_week, None);
    assert_eq!(group.starts_at, Some("19:30".to_string()));
    assert_eq!(group.ends_at, None);
    assert_eq!(group.number_of_players, None);
}

#[test]
fn league_fixtures_page() {
    let html = r#"<html><body><div id="fixtures_accordion_fixtures">
      <div>
        <div class="panel-heading">heading</div>
        <div id="collapse-2024-05-13"><table><tbody>
          <tr><td>19:20</td> <td><a href="/info/teams/11"> Red Lions </a></td> <td>v</td> <td><a href="/info/teams/12">Blue Bulls</a></td></tr>
          <tr><td>Bye week</td></tr>
          <tr><td><a href="/info/teams/13">Greens</a></td> <td>v</td> <td><a href="/info/teams/14">Yellows</a></td></tr>
        </tbody></table></div>
        <div id="no-date"><table><tbody>
          <tr><td>20:00</td> <td><a href="/info/teams/1">A</a></td> <td>v</td> <td><a href="/info/teams/2">B</a></td></tr>
        </tbody></table></div>
      </div>
    </div></body></html>"#;
    let fixtures = parse_league_fixtures(html, "7").unwrap();
    let seen: Vec<(String, i32, String, i32, String)> = fixtures
        .iter()
        .map(|f| {
            (
                f.fixture_date.clone(),
                f.mundial_home_team_id,
                f.mundial_home_team_name.clone(),
                f.mundial_away_team_id,
                f.mundial_away_team_name.clone(),
            )
        })
        .collect();
    assert_eq!(
        seen,
        vec![
            ("2024-05-13T19:20:00".to_string(), 11, "Red Lions".to_string(), 12, "Blue Bulls".to_string()),
            ("2024-05-13T00:00:00".to_string(), 13, "Greens".to_string(), 14, "Yellows".to_string()),
        ]
    );
}
