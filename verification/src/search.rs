//! Searching as one types: the searchable menus of the admin forms and the team pickers.

use vstd::prelude::*;
use crate::subscribe::{Division, League, StoredTeamAction, Team};
use crate::text::{
    chars_of, contains_chars, contains_text, lowercase, push_str, string_from, to_lowercase, trim,
    trim_chars,
};

verus! {

// ----- the searchable menu -----

/// An entry of a searchable menu: the id it stands for and the text it shows.
pub struct SelectOption {
    pub value: i32,
    pub label: String,
}

impl SelectOption {
    /// An equal entry.
    pub fn duplicate(&self) -> (o: SelectOption)
        ensures
            o == *self,
    {
        SelectOption { value: self.value, label: self.label.clone() }
    }
}

/// At most this many entries of a searchable menu are shown at once.
pub open spec fn maximum_visible_options() -> nat {
    50
}

/// The first `n` items of `s`, or all of them where there are fewer.
pub open spec fn at_most<A>(s: Seq<A>, n: nat) -> Seq<A> {
    if s.len() <= n {
        s
    } else {
        s.take(n as int)
    }
}

/// Whether a label matches lower-cased search text: the empty search matches every label,
/// any other must occur in the lower-cased label.
pub open spec fn label_matches(label: Seq<char>, search: Seq<char>) -> bool {
    search.len() == 0 || contains_text(lowercase(label), search)
}

/// The entries a searchable menu shows for the typed text, in menu order, at most fifty.
pub open spec fn matching_options_of(options: Seq<SelectOption>, query: Seq<char>) -> Seq<
    SelectOption,
> {
    at_most(
        options.filter(|o: SelectOption| label_matches(o.label@, lowercase(query))),
        maximum_visible_options(),
    )
}

/// The entries a searchable menu shows for the typed text.
pub fn matching_options(options: &Vec<SelectOption>, query: &str) -> (shown: Vec<SelectOption>)
    ensures
        shown@ == matching_options_of(options@, query@),
        query@.len() == 0 ==> shown@ == at_most(options@, maximum_visible_options()),
        query@.len() > 0 ==> lowercase(query@).len() > 0,
{
    let search = to_lowercase(&chars_of(query));
    let ghost pred = |o: SelectOption| label_matches(o.label@, lowercase(query@));
    let mut shown: Vec<SelectOption> = Vec::new();
    assert(options@.take(0).filter(pred) =~= Seq::<SelectOption>::empty()) by {
        reveal(Seq::filter);
    }
    for i in 0..options.len()
        invariant
            search@ == lowercase(query@),
            pred == (|o: SelectOption| label_matches(o.label@, lowercase(query@))),
            shown@ == at_most(options@.take(i as int).filter(pred), 50),
            query@.len() == 0 ==> options@.take(i as int).filter(pred) == options@.take(i as int),
            query@.len() == 0 ==> search@.len() == 0,
    {
        let o = &options[i];
        let ghost before = options@.take(i as int).filter(pred);
        proof {
            reveal(Seq::filter);
            assert(options@.take(i + 1).drop_last() =~= options@.take(i as int));
            assert(options@.take(i + 1).last() == options@[i as int]);
        }
        let matches = search.len() == 0 || contains_chars(&to_lowercase(&chars_of(o.label.as_str())), &search);
        proof {
            if query@.len() == 0 {
                assert(pred(options@[i as int]));
                assert(options@.take(i + 1).filter(pred) == options@.take(i as int).filter(pred).push(
                    options@[i as int],
                ));
                assert(options@.take(i + 1) =~= options@.take(i as int).push(options@[i as int]));
            }
        }
        if matches && shown.len() < 50 {
            shown.push(o.duplicate());
            assert(shown@ =~= at_most(before.push(options@[i as int]), 50));
        } else if matches {
            assert(at_most(before.push(options@[i as int]), 50) =~= at_most(before, 50));
        }
    }
    assert(options@.take(options@.len() as int) =~= options@);
    shown
}

/// What a searchable menu holds: the typed text, whether its list is open, and the entry picked.
pub struct SelectState {
    pub query: String,
    pub is_open: bool,
    pub selected: Option<i32>,
}

/// What happens to a searchable menu.
pub enum SelectEvent {
    /// The text field now holds this text.
    Typed(String),
    Focused,
    /// An entry of the list was clicked: its id and its label.
    Picked(i32, String),
    ClickedOutside,
    /// The form around the menu was reset.
    Reset,
}

/// The menu after an event, as (typed text, open, picked entry).
pub open spec fn select_next(
    query: Seq<char>,
    is_open: bool,
    selected: Option<i32>,
    event: SelectEvent,
) -> (Seq<char>, bool, Option<i32>) {
    match event {
        SelectEvent::Typed(text) => (text@, true, None),
        SelectEvent::Focused => (query, true, selected),
        SelectEvent::Picked(value, label) => (label@, false, Some(value)),
        SelectEvent::ClickedOutside => (query, false, selected),
        SelectEvent::Reset => (Seq::empty(), false, selected),
    }
}

/// Applies an event to a searchable menu.
pub fn select_step(state: SelectState, event: SelectEvent) -> (next: SelectState)
    ensures
        (next.query@, next.is_open, next.selected) == select_next(
            state.query@,
            state.is_open,
            state.selected,
            event,
        ),
{
    match event {
        SelectEvent::Typed(text) => SelectState { query: text, is_open: true, selected: None },
        SelectEvent::Focused => SelectState { is_open: true, ..state },
        SelectEvent::Picked(value, label) => SelectState {
            query: label,
            is_open: false,
            selected: Some(value),
        },
        SelectEvent::ClickedOutside => SelectState { is_open: false, ..state },
        SelectEvent::Reset => SelectState { query: String::new(), is_open: false, ..state },
    }
}

/// Typing into a menu forgets the entry picked before, so a form never submits an entry whose
/// label no longer shows.
pub proof fn typing_forgets_the_pick(
    query: Seq<char>,
    is_open: bool,
    selected: Option<i32>,
    text: String,
)
    ensures
        select_next(query, is_open, selected, SelectEvent::Typed(text)).2 is None,
        select_next(query, is_open, selected, SelectEvent::Typed(text)).0 == text@,
{
}

/// Whether the list of a searchable menu shows: it is open and has entries.
pub fn shows_list(is_open: bool, shown: &Vec<SelectOption>) -> (visible: bool)
    ensures
        visible == (is_open && shown@.len() > 0),
{
    is_open && shown.len() > 0
}

// ----- the team picker that searches the published lists -----

/// A team found by the picker, with the names of its division and league.
pub struct TeamOption {
    pub team_id: i32,
    pub team_name: String,
    pub division_name: String,
    pub league_name: String,
}

/// A team option as plain values: (team id, team, division, league).
pub type TeamOptionView = (i32, Seq<char>, Seq<char>, Seq<char>);

pub open spec fn team_option_view(o: TeamOption) -> TeamOptionView {
    (o.team_id, o.team_name@, o.division_name@, o.league_name@)
}

/// The first division of the list with the given id.
pub open spec fn first_division_with_id(all: Seq<Division>, id: i32) -> Option<Division>
    decreases all.len(),
{
    if all.len() == 0 {
        None
    } else if all[0].division_id == id {
        Some(all[0])
    } else {
        first_division_with_id(all.drop_first(), id)
    }
}

/// The first league of the list with the given id.
pub open spec fn first_league_with_id(all: Seq<League>, id: i32) -> Option<League>
    decreases all.len(),
{
    if all.len() == 0 {
        None
    } else if all[0].league_id == id {
        Some(all[0])
    } else {
        first_league_with_id(all.drop_first(), id)
    }
}

/// The option the picker offers for a team, if its division and that division's league are
/// listed and its lower-cased name holds the search text.
pub open spec fn team_option_of(
    team: Team,
    divisions: Seq<Division>,
    leagues: Seq<League>,
    search: Seq<char>,
) -> Option<TeamOptionView> {
    match first_division_with_id(divisions, team.division_id) {
        None => None,
        Some(d) => match first_league_with_id(leagues, d.league_id) {
            None => None,
            Some(l) => if contains_text(lowercase(team.name@), search) {
                Some((team.team_id, team.name@, d.name@, l.name@))
            } else {
                None
            },
        },
    }
}

/// The options the picker offers, in team-list order.
pub open spec fn team_options_from(
    teams: Seq<Team>,
    divisions: Seq<Division>,
    leagues: Seq<League>,
    search: Seq<char>,
) -> Seq<TeamOptionView>
    decreases teams.len(),
{
    if teams.len() == 0 {
        Seq::empty()
    } else {
        let before = team_options_from(teams.drop_last(), divisions, leagues, search);
        match team_option_of(teams.last(), divisions, leagues, search) {
            Some(o) => before.push(o),
            None => before,
        }
    }
}

/// A team whose division and league are listed is offered exactly when the search text occurs
/// somewhere in its lower-cased name (not only at its start), and then with its division's and
/// league's names; a team whose division or league is not listed is never offered; every team
/// so offered is among the options, and every option is such a team's.
pub proof fn teams_are_found_by_any_part_of_their_name(
    teams: Seq<Team>,
    divisions: Seq<Division>,
    leagues: Seq<League>,
    search: Seq<char>,
)
    ensures
        forall|team: Team|
            #[trigger] team_option_of(team, divisions, leagues, search) == (match first_division_with_id(
                divisions,
                team.division_id,
            ) {
                None => None::<TeamOptionView>,
                Some(d) => match first_league_with_id(leagues, d.league_id) {
                    None => None::<TeamOptionView>,
                    Some(l) => if exists|k: int|
                        0 <= k && k + search.len() <= lowercase(team.name@).len() && #[trigger] lowercase(
                            team.name@,
                        ).subrange(k, k + search.len()) == search {
                        Some((team.team_id, team.name@, d.name@, l.name@))
                    } else {
                        None::<TeamOptionView>
                    },
                },
            }),
        forall|i: int|
            0 <= i < teams.len() && #[trigger] team_option_of(teams[i], divisions, leagues, search)
                is Some ==> team_options_from(teams, divisions, leagues, search).contains(
                team_option_of(teams[i], divisions, leagues, search)->0,
            ),
        forall|o: TeamOptionView|
            #[trigger] team_options_from(teams, divisions, leagues, search).contains(o) ==> exists|
                i: int,
            |
                0 <= i < teams.len() && #[trigger] team_option_of(teams[i], divisions, leagues, search)
                    == Some(o),
    decreases teams.len(),
{
    assert forall|team: Team|
        #[trigger] team_option_of(team, divisions, leagues, search) == (match first_division_with_id(
            divisions,
            team.division_id,
        ) {
            None => None::<TeamOptionView>,
            Some(d) => match first_league_with_id(leagues, d.league_id) {
                None => None::<TeamOptionView>,
                Some(l) => if exists|k: int|
                    0 <= k && k + search.len() <= lowercase(team.name@).len() && #[trigger] lowercase(
                        team.name@,
                    ).subrange(k, k + search.len()) == search {
                    Some((team.team_id, team.name@, d.name@, l.name@))
                } else {
                    None::<TeamOptionView>
                },
            },
        }) by {
        let name = lowercase(team.name@);
        if contains_text(name, search) {
            let k = choose|k: int| #[trigger] crate::text::occurs_at(name, search, k);
            assert(name.subrange(k, k + search.len()) == search);
        }
        if exists|k: int| 0 <= k && k + search.len() <= name.len() && #[trigger] name.subrange(k, k + search.len()) == search {
            let k = choose|k: int| 0 <= k && k + search.len() <= name.len() && #[trigger] name.subrange(k, k + search.len()) == search;
            assert(crate::text::occurs_at(name, search, k));
        }
    }
    if teams.len() > 0 {
        let rest = teams.drop_last();
        teams_are_found_by_any_part_of_their_name(rest, divisions, leagues, search);
        let before = team_options_from(rest, divisions, leagues, search);
        let last = team_option_of(teams.last(), divisions, leagues, search);
        assert forall|i: int|
            0 <= i < teams.len() && #[trigger] team_option_of(teams[i], divisions, leagues, search)
                is Some implies team_options_from(teams, divisions, leagues, search).contains(
            team_option_of(teams[i], divisions, leagues, search)->0,
        ) by {
            if i < teams.len() - 1 {
                assert(teams[i] == rest[i]);
                let o = team_option_of(rest[i], divisions, leagues, search)->0;
                assert(before.contains(o));
                let j = choose|j: int| 0 <= j < before.len() && before[j] == o;
                match last {
                    Some(x) => assert(before.push(x)[j] == o),
                    None => {},
                }
            } else {
                match last {
                    Some(x) => assert(before.push(x)[before.len() as int] == x),
                    None => {},
                }
            }
        }
        assert forall|o: TeamOptionView|
            #[trigger] team_options_from(teams, divisions, leagues, search).contains(o) implies exists|
                i: int,
            | 0 <= i < teams.len() && #[trigger] team_option_of(teams[i], divisions, leagues, search)
                == Some(o) by {
            let all = team_options_from(teams, divisions, leagues, search);
            let j = choose|j: int| 0 <= j < all.len() && all[j] == o;
            if j < before.len() {
                match last {
                    Some(x) => assert(all[j] == before[j]),
                    None => {},
                }
                assert(before.contains(o));
                let i = choose|i: int|
                    0 <= i < rest.len() && #[trigger] team_option_of(rest[i], divisions, leagues, search)
                        == Some(o);
                assert(teams[i] == rest[i]);
            } else {
                assert(team_option_of(teams[teams.len() - 1], divisions, leagues, search) == Some(o));
            }
        }
    }
}

/// What the picker offers for the typed text: nothing for empty text, else the matching teams.
pub open spec fn team_options_of(
    teams: Seq<Team>,
    divisions: Seq<Division>,
    leagues: Seq<League>,
    query: Seq<char>,
) -> Seq<TeamOptionView> {
    if lowercase(query).len() == 0 {
        Seq::empty()
    } else {
        team_options_from(teams, divisions, leagues, lowercase(query))
    }
}

fn division_with_id(all: &Vec<Division>, id: i32) -> (found: Option<&Division>)
    ensures
        match found {
            Some(d) => first_division_with_id(all@, id) == Some(*d),
            None => first_division_with_id(all@, id) is None,
        },
{
    let mut i: usize = 0;
    assert(all@.skip(0) =~= all@);
    while i < all.len()
        invariant
            i <= all@.len(),
            first_division_with_id(all@, id) == first_division_with_id(all@.skip(i as int), id),
        decreases all@.len() - i,
    {
        assert(all@.skip(i as int).drop_first() =~= all@.skip(i + 1));
        assert(all@.skip(i as int)[0] == all@[i as int]);
        if all[i].division_id == id {
            return Some(&all[i]);
        }
        i = i + 1;
    }
    None
}

fn league_with_id(all: &Vec<League>, id: i32) -> (found: Option<&League>)
    ensures
        match found {
            Some(l) => first_league_with_id(all@, id) == Some(*l),
            None => first_league_with_id(all@, id) is None,
        },
{
    let mut i: usize = 0;
    assert(all@.skip(0) =~= all@);
    while i < all.len()
        invariant
            i <= all@.len(),
            first_league_with_id(all@, id) == first_league_with_id(all@.skip(i as int), id),
        decreases all@.len() - i,
    {
        assert(all@.skip(i as int).drop_first() =~= all@.skip(i + 1));
        assert(all@.skip(i as int)[0] == all@[i as int]);
        if all[i].league_id == id {
            return Some(&all[i]);
        }
        i = i + 1;
    }
    None
}

/// The teams the picker offers for the typed text, each with its division and league.
pub fn team_options(
    teams: &Vec<Team>,
    divisions: &Vec<Division>,
    leagues: &Vec<League>,
    query: &str,
) -> (options: Vec<TeamOption>)
    ensures
        options@.map_values(|o: TeamOption| team_option_view(o)) == team_options_of(
            teams@,
            divisions@,
            leagues@,
            query@,
        ),
        query@.len() == 0 ==> options@.len() == 0,
        query@.len() > 0 ==> lowercase(query@).len() > 0,
{
    let search = to_lowercase(&chars_of(query));
    let mut options: Vec<TeamOption> = Vec::new();
    if search.len() == 0 {
        assert(options@.map_values(|o: TeamOption| team_option_view(o)) =~= Seq::<
            TeamOptionView,
        >::empty());
        return options;
    }
    for i in 0..teams.len()
        invariant
            search@ == lowercase(query@),
            search@.len() > 0,
            options@.map_values(|o: TeamOption| team_option_view(o)) == team_options_from(
                teams@.take(i as int),
                divisions@,
                leagues@,
                search@,
            ),
    {
        let team = &teams[i];
        let ghost before = options@.map_values(|o: TeamOption| team_option_view(o));
        proof {
            assert(teams@.take(i + 1).drop_last() =~= teams@.take(i as int));
            assert(teams@.take(i + 1).last() == teams@[i as int]);
        }
        match division_with_id(divisions, team.division_id) {
            None => {},
            Some(d) => match league_with_id(leagues, d.league_id) {
                None => {},
                Some(l) => {
                    if contains_chars(&to_lowercase(&chars_of(team.name.as_str())), &search) {
                        options.push(
                            TeamOption {
                                team_id: team.team_id,
                                team_name: team.name.clone(),
                                division_name: d.name.clone(),
                                league_name: l.name.clone(),
                            },
                        );
                        assert(options@.map_values(|o: TeamOption| team_option_view(o))
                            =~= before.push((team.team_id, team.name@, d.name@, l.name@)));
                    }
                },
            },
        }
    }
    assert(teams@.take(teams@.len() as int) =~= teams@);
    options
}

/// The line under a team in the picker: its division and league.
pub open spec fn picker_context_text(division_name: Seq<char>, league_name: Seq<char>) -> Seq<char> {
    division_name + " — "@ + league_name
}

/// The line under a team in the picker.
pub fn picker_context(option: &TeamOption) -> (line: String)
    ensures
        line@ == picker_context_text(option.division_name@, option.league_name@),
{
    let mut out: Vec<char> = Vec::new();
    push_str(&mut out, option.division_name.as_str());
    push_str(&mut out, " — ");
    push_str(&mut out, option.league_name.as_str());
    string_from(&out)
}

/// What the team picker holds: the typed text and whether its list is open.
pub struct PickerState {
    pub query: String,
    pub is_open: bool,
}

/// What happens to the team picker.
pub enum PickerInput {
    Typed(String),
    Focused,
    Blurred,
    /// A team of the list was clicked: its id and its name.
    Picked(i32, String),
}

/// The picker after an event, as (typed text, open), and what becomes of the followed team.
pub open spec fn picker_input_next(query: Seq<char>, is_open: bool, input: PickerInput) -> (
    Seq<char>,
    bool,
    StoredTeamAction,
) {
    match input {
        PickerInput::Typed(text) => (text@, true, StoredTeamAction::Keep),
        PickerInput::Focused => (query, is_open || query.len() > 0, StoredTeamAction::Keep),
        PickerInput::Blurred => (query, false, StoredTeamAction::Keep),
        PickerInput::Picked(id, name) => (name@, false, StoredTeamAction::Save(id)),
    }
}

/// Applies an event to the team picker; a pick makes the team the one that is followed.
pub fn picker_input_step(state: PickerState, input: PickerInput) -> (next: (
    PickerState,
    StoredTeamAction,
))
    ensures
        (next.0.query@, next.0.is_open, next.1) == picker_input_next(
            state.query@,
            state.is_open,
            input,
        ),
{
    match input {
        PickerInput::Typed(text) => (PickerState { query: text, is_open: true }, StoredTeamAction::Keep),
        PickerInput::Focused => {
            let open = state.is_open || !state.query.as_str().is_empty();
            (PickerState { is_open: open, ..state }, StoredTeamAction::Keep)
        },
        PickerInput::Blurred => (PickerState { is_open: false, ..state }, StoredTeamAction::Keep),
        PickerInput::Picked(id, name) => (
            PickerState { query: name, is_open: false },
            StoredTeamAction::Save(id),
        ),
    }
}

// ----- the team picker that asks the server -----

/// A team as the server lists it for the picker.
pub struct TeamListing {
    pub team_id: i32,
    pub team_name: String,
    pub division_name: String,
    pub league_name: String,
}

/// The line under a listed team: its division and league.
pub open spec fn listing_context_text(division_name: Seq<char>, league_name: Seq<char>) -> Seq<char> {
    division_name + ", "@ + league_name
}

/// The line under a listed team.
pub fn listing_context(team: &TeamListing) -> (line: String)
    ensures
        line@ == listing_context_text(team.division_name@, team.league_name@),
{
    let mut out: Vec<char> = Vec::new();
    push_str(&mut out, team.division_name.as_str());
    push_str(&mut out, ", ");
    push_str(&mut out, team.league_name.as_str());
    string_from(&out)
}

/// The text the server searches team names for: the typed text trimmed; none (and so no
/// teams) when nothing but white space was typed.
pub fn search_text(typed: &str) -> (search: Option<String>)
    ensures
        match search {
            Some(s) => s@ == trim(typed@) && trim(typed@).len() > 0,
            None => trim(typed@).len() == 0,
        },
{
    let trimmed = trim_chars(&chars_of(typed));
    if trimmed.len() == 0 {
        None
    } else {
        Some(string_from(&trimmed))
    }
}

} // verus!
