use footical::subscribe::{
    adopt_stored_team, calendar_url, copy_label, divisions_in_league, find_team,
    google_calendar_url, mundial_calendar_url, picker_step, subscribe_step, teams_in_division,
    webcal_url, Division, PickerEvent, PickerSelection, StoredTeamAction, SubscribeEvent,
    SubscribeSelection, Team,
};

fn division(division_id: i32, league_id: i32, name: &str) -> Division {
    Division { division_id, league_id, name: name.to_string() }
}

fn team(team_id: i32, division_id: i32, name: &str) -> Team {
    Team { team_id, division_id, name: name.to_string() }
}

fn no_selection() -> SubscribeSelection {
    SubscribeSelection { league_id: None, division_id: None, tracked_team_id: None }
}

#[test]
fn divisions_menu_lists_the_chosen_league_in_order() {
    let all = vec![division(1, 10, "Mon A"), division(2, 20, "Tue A"), division(3, 10, "Mon B")];
    let shown = divisions_in_league(&all, Some(10));
    let names: Vec<&str> = shown.iter().map(|d| d.name.as_str()).collect();
    assert_eq!(names, vec!["Mon A", "Mon B"]);
    assert!(divisions_in_league(&all, None).is_empty());
    assert!(divisions_in_league(&all, Some(99)).is_empty());
}

#[test]
fn teams_menu_lists_the_chosen_division() {
    let all = vec![team(7, 1, "Rovers"), team(8, 2, "United"), team(9, 1, "Athletic")];
    let shown = teams_in_division(&all, Some(1));
    let ids: Vec<i32> = shown.iter().map(|t| t.team_id).collect();
    assert_eq!(ids, vec![7, 9]);
    assert!(teams_in_division(&all, None).is_empty());
}

#[test]
fn followed_team_is_found_by_id() {
    let all = vec![team(7, 1, "Rovers"), team(8, 2, "United"), team(8, 3, "Second eight")];
    assert_eq!(find_team(&all, Some(8)).map(|t| t.name), Some("United".to_string()));
    assert!(find_team(&all, Some(5)).is_none());
    assert!(find_team(&all, None).is_none());
}

#[test]
fn calendar_links_of_a_team() {
    assert_eq!(calendar_url(42), "https://calendar.footical.club/42.ics");
    assert_eq!(webcal_url(42), "webcal://calendar.footical.club/42.ics");
    assert_eq!(
        google_calendar_url(42),
        "https://calendar.google.com/calendar/r?cid=webcal%3A%2F%2Fcalendar.footical.club%2F42.ics"
    );
    assert_eq!(
        mundial_calendar_url(7),
        "https://d39amfcda6iyyg.cloudfront.net/football_mundial/7.ics"
    );
    assert_eq!(calendar_url(-3), "https://calendar.footical.club/-3.ics");
}

#[test]
fn copy_button_labels() {
    assert_eq!(copy_label(Some("Rovers"), false), "Copy Rovers Calendar Link");
    assert_eq!(copy_label(None, false), "Copy  Calendar Link");
    assert_eq!(copy_label(Some("Rovers"), true), "Copied!");
}

#[test]
fn choosing_a_league_clears_the_division() {
    let s = SubscribeSelection { league_id: Some(1), division_id: Some(5), tracked_team_id: None };
    let (next, action) = subscribe_step(s, SubscribeEvent::LeagueChosen("2".to_string()));
    assert_eq!(next, SubscribeSelection { league_id: Some(2), division_id: None, tracked_team_id: None });
    assert_eq!(action, StoredTeamAction::Keep);
    let (next, _) = subscribe_step(next, SubscribeEvent::LeagueChosen(String::new()));
    assert_eq!(next.league_id, None);
}

#[test]
fn choosing_a_division_keeps_the_league() {
    let s = SubscribeSelection { league_id: Some(1), division_id: None, tracked_team_id: None };
    let (next, action) = subscribe_step(s, SubscribeEvent::DivisionChosen("12".to_string()));
    assert_eq!(next, SubscribeSelection { league_id: Some(1), division_id: Some(12), tracked_team_id: None });
    assert_eq!(action, StoredTeamAction::Keep);
}

#[test]
fn choosing_a_team_follows_it_and_stores_it() {
    let (next, action) = subscribe_step(no_selection(), SubscribeEvent::TeamChosen("77".to_string()));
    assert_eq!(next.tracked_team_id, Some(77));
    assert_eq!(action, StoredTeamAction::Save(77));
    let (same, action) = subscribe_step(next, SubscribeEvent::TeamChosen(String::new()));
    assert_eq!(same, next);
    assert_eq!(action, StoredTeamAction::Keep);
}

#[test]
fn changing_team_clears_everything() {
    let s = SubscribeSelection { league_id: Some(1), division_id: Some(2), tracked_team_id: Some(3) };
    let (next, action) = subscribe_step(s, SubscribeEvent::ChangeTeam);
    assert_eq!(next, no_selection());
    assert_eq!(action, StoredTeamAction::Clear);
}

#[test]
fn older_page_menus_cascade() {
    let s = PickerSelection { group_id: Some(1), league_id: Some(2), team_id: Some(3) };
    let after_group = picker_step(s, PickerEvent::GroupChosen("4".to_string()));
    assert_eq!(after_group, PickerSelection { group_id: Some(4), league_id: None, team_id: None });
    let after_league = picker_step(s, PickerEvent::LeagueChosen("5".to_string()));
    assert_eq!(after_league, PickerSelection { group_id: Some(1), league_id: Some(5), team_id: None });
    let after_team = picker_step(s, PickerEvent::TeamChosen("x".to_string()));
    assert_eq!(after_team, PickerSelection { group_id: Some(1), league_id: Some(2), team_id: None });
}

#[test]
fn stored_team_is_adopted_only_when_none_is_followed() {
    assert_eq!(adopt_stored_team(None, Some(5)), Some(5));
    assert_eq!(adopt_stored_team(Some(1), Some(5)), None);
    assert_eq!(adopt_stored_team(None, None), None);
}
