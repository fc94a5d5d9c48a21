use footical::subscribe::{
    find_mundial_team, leagues_in_group, teams_in_league, MundialLeague, MundialLeagueGroup,
    MundialTeam,
};

fn league(id: i32, group: i32, name: &str) -> MundialLeague {
    MundialLeague { mundial_league_id: id, mundial_league_group_id: group, name: name.to_string() }
}

fn team(id: i32, league: i32, name: &str) -> MundialTeam {
    MundialTeam { mundial_team_id: id, mundial_league_id: league, name: name.to_string() }
}

#[test]
fn leagues_of_the_chosen_group_in_list_order() {
    let groups = vec![MundialLeagueGroup { mundial_league_group_id: 1, name: "Monday".to_string() }];
    assert_eq!(groups[0].mundial_league_group_id, 1);
    let all = vec![league(10, 1, "A"), league(11, 2, "B"), league(12, 1, "C")];
    let names: Vec<String> = leagues_in_group(&all, Some(1)).into_iter().map(|l| l.name).collect();
    assert_eq!(names, vec!["A".to_string(), "C".to_string()]);
    assert!(leagues_in_group(&all, Some(3)).is_empty());
    assert!(leagues_in_group(&all, None).is_empty());
}

#[test]
fn teams_of_the_chosen_league_in_list_order() {
    let all = vec![team(1, 10, "Reds"), team(2, 11, "Blues"), team(3, 10, "Greens")];
    let ids: Vec<i32> = teams_in_league(&all, Some(10)).iter().map(|t| t.mundial_team_id).collect();
    assert_eq!(ids, vec![1, 3]);
    assert!(teams_in_league(&all, None).is_empty());
}

#[test]
fn the_chosen_team_is_looked_up_by_id() {
    let all = vec![team(1, 10, "Reds"), team(2, 11, "Blues")];
    assert_eq!(find_mundial_team(&all, Some(2)).map(|t| t.name), Some("Blues".to_string()));
    assert!(find_mundial_team(&all, Some(9)).is_none());
    assert!(find_mundial_team(&all, None).is_none());
}
