use footical::search::{
    listing_context, matching_options, picker_context, picker_input_step, search_text,
    select_step, shows_list, team_options, PickerInput, PickerState, SelectEvent, SelectOption,
    SelectState, TeamListing,
};
use footical::subscribe::{Division, League, StoredTeamAction, Team};

fn option(value: i32, label: &str) -> SelectOption {
    SelectOption { value, label: label.to_string() }
}

#[test]
fn menu_matches_without_regard_to_case() {
    let options = vec![option(1, "Alice Smith"), option(2, "Bob Jones"), option(3, "SMITHY")];
    let shown: Vec<i32> = matching_options(&options, "smith").iter().map(|o| o.value).collect();
    assert_eq!(shown, vec![1, 3]);
    let all: Vec<i32> = matching_options(&options, "").iter().map(|o| o.value).collect();
    assert_eq!(all, vec![1, 2, 3]);
    assert!(matching_options(&options, "zed").is_empty());
}

#[test]
fn menu_shows_at_most_fifty() {
    let options: Vec<SelectOption> = (0..80).map(|i| option(i, &format!("Player {i}"))).collect();
    let shown = matching_options(&options, "player");
    assert_eq!(shown.len(), 50);
    assert_eq!(shown[49].value, 49);
    let few = matching_options(&options, "7");
    let values: Vec<i32> = few.iter().map(|o| o.value).collect();
    assert_eq!(values, vec![7, 17, 27, 37, 47, 57, 67, 70, 71, 72, 73, 74, 75, 76, 77, 78, 79]);
}

#[test]
fn typing_clears_the_pick_and_opens_the_list() {
    let state = SelectState { query: "Al".to_string(), is_open: false, selected: Some(1) };
    let next = select_step(state, SelectEvent::Typed("Ali".to_string()));
    assert_eq!(next.query, "Ali");
    assert!(next.is_open);
    assert_eq!(next.selected, None);
}

#[test]
fn picking_fills_the_field_and_closes() {
    let state = SelectState { query: "Ali".to_string(), is_open: true, selected: None };
    let next = select_step(state, SelectEvent::Picked(1, "Alice Smith".to_string()));
    assert_eq!(next.query, "Alice Smith");
    assert!(!next.is_open);
    assert_eq!(next.selected, Some(1));
    let reset = select_step(next, SelectEvent::Reset);
    assert_eq!(reset.query, "");
    assert!(!reset.is_open);
    assert_eq!(reset.selected, Some(1));
    let outside = select_step(
        SelectState { query: "x".to_string(), is_open: true, selected: None },
        SelectEvent::ClickedOutside,
    );
    assert!(!outside.is_open);
}

#[test]
fn list_shows_only_when_open_with_entries() {
    assert!(shows_list(true, &vec![option(1, "A")]));
    assert!(!shows_list(false, &vec![option(1, "A")]));
    assert!(!shows_list(true, &Vec::new()));
}

#[test]
fn team_picker_finds_teams_with_their_division_and_league() {
    let leagues = vec![League { league_id: 1, name: "Monday".to_string() }];
    let divisions = vec![
        Division { division_id: 10, league_id: 1, name: "Division 1".to_string() },
        Division { division_id: 11, league_id: 2, name: "Orphan".to_string() },
    ];
    let teams = vec![
        Team { team_id: 100, division_id: 10, name: "Real Ale Madrid".to_string() },
        Team { team_id: 101, division_id: 11, name: "Real Sociable".to_string() },
        Team { team_id: 102, division_id: 10, name: "Inter Milan Bar".to_string() },
        Team { team_id: 103, division_id: 12, name: "Real Lonely".to_string() },
    ];
    let found = team_options(&teams, &divisions, &leagues, "REAL");
    assert_eq!(found.len(), 1);
    assert_eq!(found[0].team_id, 100);
    assert_eq!(found[0].division_name, "Division 1");
    assert_eq!(found[0].league_name, "Monday");
    assert_eq!(picker_context(&found[0]), "Division 1 — Monday");
    assert!(team_options(&teams, &divisions, &leagues, "").is_empty());
}

#[test]
fn team_picker_events() {
    let closed = PickerState { query: String::new(), is_open: false };
    let (state, action) = picker_input_step(closed, PickerInput::Focused);
    assert!(!state.is_open);
    assert_eq!(action, StoredTeamAction::Keep);
    let (state, _) = picker_input_step(state, PickerInput::Typed("rea".to_string()));
    assert!(state.is_open);
    let (state, _) = picker_input_step(state, PickerInput::Blurred);
    assert!(!state.is_open);
    let (state, _) = picker_input_step(state, PickerInput::Focused);
    assert!(state.is_open);
    let (state, action) = picker_input_step(state, PickerInput::Picked(100, "Real Ale Madrid".to_string()));
    assert_eq!(state.query, "Real Ale Madrid");
    assert!(!state.is_open);
    assert_eq!(action, StoredTeamAction::Save(100));
}

#[test]
fn server_search_text_is_trimmed() {
    assert_eq!(search_text("  rovers "), Some("rovers".to_string()));
    assert_eq!(search_text("   "), None);
    assert_eq!(search_text(""), None);
}

#[test]
fn listed_team_context() {
    let team = TeamListing {
        team_id: 1,
        team_name: "Rovers".to_string(),
        division_name: "Division 2".to_string(),
        league_name: "Tuesday".to_string(),
    };
    assert_eq!(listing_context(&team), "Division 2, Tuesday");
}

#[test]
fn an_empty_query_shows_the_first_fifty_and_no_teams() {
    let options: Vec<SelectOption> = (0..60).map(|i| option(i, &format!("P{i}"))).collect();
    let shown = matching_options(&options, "");
    assert_eq!(shown.len(), 50);
    assert_eq!(shown[0].value, 0);
    assert!(team_options(&vec![], &vec![], &vec![], "").is_empty());
}
