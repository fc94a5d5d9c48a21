//! Picking a team on the subscription pages, and the calendar links that a team is given.

use vstd::prelude::*;
use crate::text::{chars_of, parse_i32, parse_i32_spec, push_signed_decimal, push_str, signed_decimal, string_from};

verus! {

/// A league as the published league list holds it.
pub struct League {
    pub league_id: i32,
    pub name: String,
}

/// A division as the published division list holds it.
pub struct Division {
    pub division_id: i32,
    pub league_id: i32,
    pub name: String,
}

/// A team as the published team list holds it.
pub struct Team {
    pub team_id: i32,
    pub division_id: i32,
    pub name: String,
}

impl Division {
    /// An equal division.
    pub fn duplicate(&self) -> (d: Division)
        ensures
            d == *self,
    {
        Division { division_id: self.division_id, league_id: self.league_id, name: self.name.clone() }
    }
}

impl Team {
    /// An equal team.
    pub fn duplicate(&self) -> (t: Team)
        ensures
            t == *self,
    {
        Team { team_id: self.team_id, division_id: self.division_id, name: self.name.clone() }
    }
}

// ----- the lists a selection shows -----

/// The divisions of the chosen league, in list order; none while no league is chosen.
pub open spec fn divisions_of(all: Seq<Division>, league_id: Option<i32>) -> Seq<Division> {
    match league_id {
        Some(id) => all.filter(|d: Division| d.league_id == id),
        None => Seq::empty(),
    }
}

/// The teams of the chosen division, in list order; none while no division is chosen.
pub open spec fn teams_of(all: Seq<Team>, division_id: Option<i32>) -> Seq<Team> {
    match division_id {
        Some(id) => all.filter(|t: Team| t.division_id == id),
        None => Seq::empty(),
    }
}

/// The divisions that the division menu offers once `league_id` is chosen.
pub fn divisions_in_league(all: &Vec<Division>, league_id: Option<i32>) -> (shown: Vec<Division>)
    ensures
        shown@ == divisions_of(all@, league_id),
{
    let mut shown: Vec<Division> = Vec::new();
    match league_id {
        None => {},
        Some(id) => {
            let ghost pred = |d: Division| d.league_id == id;
            assert(all@.take(0).filter(pred) =~= Seq::<Division>::empty()) by {
                reveal(Seq::filter);
            }
            for i in 0..all.len()
                invariant
                    shown@ == all@.take(i as int).filter(pred),
                    pred == (|d: Division| d.league_id == id),
            {
                let d = &all[i];
                proof {
                    reveal(Seq::filter);
                    assert(all@.take(i + 1).drop_last() =~= all@.take(i as int));
                    assert(all@.take(i + 1).last() == all@[i as int]);
                }
                if d.league_id == id {
                    shown.push(d.duplicate());
                }
            }
            assert(all@.take(all@.len() as int) =~= all@);
        },
    }
    shown
}

/// The teams that the team menu offers once `division_id` is chosen.
pub fn teams_in_division(all: &Vec<Team>, division_id: Option<i32>) -> (shown: Vec<Team>)
    ensures
        shown@ == teams_of(all@, division_id),
{
    let mut shown: Vec<Team> = Vec::new();
    match division_id {
        None => {},
        Some(id) => {
            let ghost pred = |t: Team| t.division_id == id;
            assert(all@.take(0).filter(pred) =~= Seq::<Team>::empty()) by {
                reveal(Seq::filter);
            }
            for i in 0..all.len()
                invariant
                    shown@ == all@.take(i as int).filter(pred),
                    pred == (|t: Team| t.division_id == id),
            {
                let t = &all[i];
                proof {
                    reveal(Seq::filter);
                    assert(all@.take(i + 1).drop_last() =~= all@.take(i as int));
                    assert(all@.take(i + 1).last() == all@[i as int]);
                }
                if t.division_id == id {
                    shown.push(t.duplicate());
                }
            }
            assert(all@.take(all@.len() as int) =~= all@);
        },
    }
    shown
}

/// The first team of the list with the given id.
pub open spec fn first_team_with_id(all: Seq<Team>, team_id: i32) -> Option<Team>
    decreases all.len(),
{
    if all.len() == 0 {
        None
    } else if all[0].team_id == team_id {
        Some(all[0])
    } else {
        first_team_with_id(all.drop_first(), team_id)
    }
}

/// The team that is followed, once its id is known and the team list holds it.
pub open spec fn tracked_team_of(all: Seq<Team>, team_id: Option<i32>) -> Option<Team> {
    match team_id {
        Some(id) => first_team_with_id(all, id),
        None => None,
    }
}

/// The followed team, looked up in the team list by its id.
pub fn find_team(all: &Vec<Team>, team_id: Option<i32>) -> (found: Option<Team>)
    ensures
        found == tracked_team_of(all@, team_id),
{
    match team_id {
        None => None,
        Some(id) => {
            let mut i: usize = 0;
            assert(all@.skip(0) =~= all@);
            while i < all.len()
                invariant
                    i <= all@.len(),
                    team_id == Some(id),
                    first_team_with_id(all@, id) == first_team_with_id(all@.skip(i as int), id),
                decreases all@.len() - i,
            {
                assert(all@.skip(i as int).drop_first() =~= all@.skip(i + 1));
                assert(all@.skip(i as int)[0] == all@[i as int]);
                if all[i].team_id == id {
                    assert(first_team_with_id(all@.skip(i as int), id) == Some(all@[i as int]));
                    return Some(all[i].duplicate());
                }
                i = i + 1;
            }
            None
        },
    }
}

// ----- the older page's lists -----

/// A league group as the older page's group list holds it.
pub struct MundialLeagueGroup {
    pub mundial_league_group_id: i32,
    pub name: String,
}

/// A league as the older page's league list holds it, with the group it belongs to.
pub struct MundialLeague {
    pub mundial_league_id: i32,
    pub mundial_league_group_id: i32,
    pub name: String,
}

/// A team as the older page's team list holds it, with the league it plays in.
pub struct MundialTeam {
    pub mundial_team_id: i32,
    pub mundial_league_id: i32,
    pub name: String,
}

impl MundialLeague {
    /// An equal league.
    pub fn duplicate(&self) -> (l: MundialLeague)
        ensures
            l == *self,
    {
        MundialLeague {
            mundial_league_id: self.mundial_league_id,
            mundial_league_group_id: self.mundial_league_group_id,
            name: self.name.clone(),
        }
    }
}

impl MundialTeam {
    /// An equal team.
    pub fn duplicate(&self) -> (t: MundialTeam)
        ensures
            t == *self,
    {
        MundialTeam {
            mundial_team_id: self.mundial_team_id,
            mundial_league_id: self.mundial_league_id,
            name: self.name.clone(),
        }
    }
}

/// The leagues of the chosen league group, in list order; none while no group is chosen.
pub open spec fn leagues_of_group(all: Seq<MundialLeague>, group_id: Option<i32>) -> Seq<MundialLeague> {
    match group_id {
        Some(id) => all.filter(|l: MundialLeague| l.mundial_league_group_id == id),
        None => Seq::empty(),
    }
}

/// The teams of the chosen league, in list order; none while no league is chosen.
pub open spec fn teams_of_league(all: Seq<MundialTeam>, league_id: Option<i32>) -> Seq<MundialTeam> {
    match league_id {
        Some(id) => all.filter(|t: MundialTeam| t.mundial_league_id == id),
        None => Seq::empty(),
    }
}

/// The leagues that the older page's league menu offers once `group_id` is chosen.
pub fn leagues_in_group(all: &Vec<MundialLeague>, group_id: Option<i32>) -> (shown: Vec<MundialLeague>)
    ensures
        shown@ == leagues_of_group(all@, group_id),
{
    let mut shown: Vec<MundialLeague> = Vec::new();
    match group_id {
        None => {},
        Some(id) => {
            let ghost pred = |l: MundialLeague| l.mundial_league_group_id == id;
            assert(all@.take(0).filter(pred) =~= Seq::<MundialLeague>::empty()) by {
                reveal(Seq::filter);
            }
            for i in 0..all.len()
                invariant
                    shown@ == all@.take(i as int).filter(pred),
                    pred == (|l: MundialLeague| l.mundial_league_group_id == id),
            {
                let l = &all[i];
                proof {
                    reveal(Seq::filter);
                    assert(all@.take(i + 1).drop_last() =~= all@.take(i as int));
                    assert(all@.take(i + 1).last() == all@[i as int]);
                }
                if l.mundial_league_group_id == id {
                    shown.push(l.duplicate());
                }
            }
            assert(all@.take(all@.len() as int) =~= all@);
        },
    }
    shown
}

/// The teams that the older page's team menu offers once `league_id` is chosen.
pub fn teams_in_league(all: &Vec<MundialTeam>, league_id: Option<i32>) -> (shown: Vec<MundialTeam>)
    ensures
        shown@ == teams_of_league(all@, league_id),
{
    let mut shown: Vec<MundialTeam> = Vec::new();
    match league_id {
        None => {},
        Some(id) => {
            let ghost pred = |t: MundialTeam| t.mundial_league_id == id;
            assert(all@.take(0).filter(pred) =~= Seq::<MundialTeam>::empty()) by {
                reveal(Seq::filter);
            }
            for i in 0..all.len()
                invariant
                    shown@ == all@.take(i as int).filter(pred),
                    pred == (|t: MundialTeam| t.mundial_league_id == id),
            {
                let t = &all[i];
                proof {
                    reveal(Seq::filter);
                    assert(all@.take(i + 1).drop_last() =~= all@.take(i as int));
                    assert(all@.take(i + 1).last() == all@[i as int]);
                }
                if t.mundial_league_id == id {
                    shown.push(t.duplicate());
                }
            }
            assert(all@.take(all@.len() as int) =~= all@);
        },
    }
    shown
}

/// The first team of the older page's list with the given id.
pub open spec fn first_mundial_team(all: Seq<MundialTeam>, team_id: i32) -> Option<MundialTeam>
    decreases all.len(),
{
    if all.len() == 0 {
        None
    } else if all[0].mundial_team_id == team_id {
        Some(all[0])
    } else {
        first_mundial_team(all.drop_first(), team_id)
    }
}

/// The chosen team on the older page, looked up in the team list by its id.
pub fn find_mundial_team(all: &Vec<MundialTeam>, team_id: Option<i32>) -> (found: Option<MundialTeam>)
    ensures
        found == (match team_id {
            Some(id) => first_mundial_team(all@, id),
            None => None,
        }),
{
    match team_id {
        None => None,
        Some(id) => {
            let mut i: usize = 0;
            assert(all@.skip(0) =~= all@);
            while i < all.len()
                invariant
                    i <= all@.len(),
                    team_id == Some(id),
                    first_mundial_team(all@, id) == first_mundial_team(all@.skip(i as int), id),
                decreases all@.len() - i,
            {
                assert(all@.skip(i as int).drop_first() =~= all@.skip(i + 1));
                assert(all@.skip(i as int)[0] == all@[i as int]);
                if all[i].mundial_team_id == id {
                    assert(first_mundial_team(all@.skip(i as int), id) == Some(all@[i as int]));
                    return Some(all[i].duplicate());
                }
                i = i + 1;
            }
            None
        },
    }
}

// ----- calendar links -----

/// The host that serves the team calendars.
pub open spec fn calendar_host() -> Seq<char> {
    "calendar.footical.club"@
}

/// The https address of a team's calendar feed.
pub open spec fn calendar_url_text(team_id: i32) -> Seq<char> {
    "https://"@ + calendar_host() + "/"@ + signed_decimal(team_id as int) + ".ics"@
}

/// The webcal address that opens a team's calendar in a calendar app.
pub open spec fn webcal_url_text(team_id: i32) -> Seq<char> {
    "webcal://"@ + calendar_host() + "/"@ + signed_decimal(team_id as int) + ".ics"@
}

/// The Google Calendar address that subscribes to a team's calendar.
pub open spec fn google_calendar_url_text(team_id: i32) -> Seq<char> {
    "https://calendar.google.com/calendar/r?cid=webcal%3A%2F%2F"@ + calendar_host() + "%2F"@
        + signed_decimal(team_id as int) + ".ics"@
}

/// The address of a team's feed on the older data host.
pub open spec fn mundial_calendar_url_text(team_id: i32) -> Seq<char> {
    "https://d39amfcda6iyyg.cloudfront.net/football_mundial/"@ + signed_decimal(team_id as int)
        + ".ics"@
}

fn host_into(out: &mut Vec<char>)
    ensures
        final(out)@ == old(out)@ + calendar_host(),
{
    push_str(out, "calendar.footical.club");
}

/// The https address of a team's calendar feed.
pub fn calendar_url(team_id: i32) -> (url: String)
    ensures
        url@ == calendar_url_text(team_id),
{
    let mut out: Vec<char> = Vec::new();
    push_str(&mut out, "https://");
    host_into(&mut out);
    push_str(&mut out, "/");
    push_signed_decimal(&mut out, team_id as i64);
    push_str(&mut out, ".ics");
    assert(out@ =~= calendar_url_text(team_id));
    string_from(&out)
}

/// The webcal address of a team's calendar feed.
pub fn webcal_url(team_id: i32) -> (url: String)
    ensures
        url@ == webcal_url_text(team_id),
{
    let mut out: Vec<char> = Vec::new();
    push_str(&mut out, "webcal://");
    host_into(&mut out);
    push_str(&mut out, "/");
    push_signed_decimal(&mut out, team_id as i64);
    push_str(&mut out, ".ics");
    assert(out@ =~= webcal_url_text(team_id));
    string_from(&out)
}

/// The Google Calendar subscription address of a team's calendar feed.
pub fn google_calendar_url(team_id: i32) -> (url: String)
    ensures
        url@ == google_calendar_url_text(team_id),
{
    let mut out: Vec<char> = Vec::new();
    push_str(&mut out, "https://calendar.google.com/calendar/r?cid=webcal%3A%2F%2F");
    host_into(&mut out);
    push_str(&mut out, "%2F");
    push_signed_decimal(&mut out, team_id as i64);
    push_str(&mut out, ".ics");
    assert(out@ =~= google_calendar_url_text(team_id));
    string_from(&out)
}

/// The address of a team's feed on the older data host.
pub fn mundial_calendar_url(team_id: i32) -> (url: String)
    ensures
        url@ == mundial_calendar_url_text(team_id),
{
    let mut out: Vec<char> = Vec::new();
    push_str(&mut out, "https://d39amfcda6iyyg.cloudfront.net/football_mundial/");
    push_signed_decimal(&mut out, team_id as i64);
    push_str(&mut out, ".ics");
    assert(out@ =~= mundial_calendar_url_text(team_id));
    string_from(&out)
}

/// The label of the copy button on the older page, before and after a copy.
pub open spec fn copy_label_text(team_name: Option<Seq<char>>, is_copied: bool) -> Seq<char> {
    if is_copied {
        "Copied!"@
    } else {
        "Copy "@ + (match team_name {
            Some(n) => n,
            None => Seq::empty(),
        }) + " Calendar Link"@
    }
}

/// The label of the copy button on the older page.
pub fn copy_label(team_name: Option<&str>, is_copied: bool) -> (label: String)
    ensures
        label@ == copy_label_text(
            match team_name {
                Some(n) => Some(n@),
                None => None,
            },
            is_copied,
        ),
{
    let mut out: Vec<char> = Vec::new();
    if is_copied {
        push_str(&mut out, "Copied!");
    } else {
        push_str(&mut out, "Copy ");
        match team_name {
            Some(n) => push_str(&mut out, n),
            None => {},
        }
        push_str(&mut out, " Calendar Link");
    }
    string_from(&out)
}

// ----- the selection on the subscription page -----

/// What the subscription page has chosen: a league, a division, and the team it follows.
#[derive(Clone, Copy, Debug, PartialEq, Eq)]
pub struct SubscribeSelection {
    pub league_id: Option<i32>,
    pub division_id: Option<i32>,
    pub tracked_team_id: Option<i32>,
}

/// What the visitor does on the subscription page; a menu hands over the value it shows.
pub enum SubscribeEvent {
    LeagueChosen(String),
    DivisionChosen(String),
    TeamChosen(String),
    ChangeTeam,
}

/// What the page does to the team id kept in the browser.
#[derive(Clone, Copy, Debug, PartialEq, Eq)]
pub enum StoredTeamAction {
    Keep,
    Save(i32),
    Clear,
}

/// The selection after an event, and what becomes of the stored team id.
pub open spec fn subscribe_next(s: SubscribeSelection, event: SubscribeEvent) -> (
    SubscribeSelection,
    StoredTeamAction,
) {
    match event {
        SubscribeEvent::LeagueChosen(v) => (
            SubscribeSelection { league_id: parse_i32_spec(v@), division_id: None, ..s },
            StoredTeamAction::Keep,
        ),
        SubscribeEvent::DivisionChosen(v) => (
            SubscribeSelection { division_id: parse_i32_spec(v@), ..s },
            StoredTeamAction::Keep,
        ),
        SubscribeEvent::TeamChosen(v) => match parse_i32_spec(v@) {
            Some(id) => (
                SubscribeSelection { tracked_team_id: Some(id), ..s },
                StoredTeamAction::Save(id),
            ),
            None => (s, StoredTeamAction::Keep),
        },
        SubscribeEvent::ChangeTeam => (
            SubscribeSelection { league_id: None, division_id: None, tracked_team_id: None },
            StoredTeamAction::Clear,
        ),
    }
}

/// Applies one event of the subscription page.
pub fn subscribe_step(s: SubscribeSelection, event: SubscribeEvent) -> (next: (
    SubscribeSelection,
    StoredTeamAction,
))
    ensures
        next == subscribe_next(s, event),
{
    match event {
        SubscribeEvent::LeagueChosen(v) => {
            let league_id = parse_i32(&chars_of(v.as_str()));
            (SubscribeSelection { league_id, division_id: None, ..s }, StoredTeamAction::Keep)
        },
        SubscribeEvent::DivisionChosen(v) => {
            let division_id = parse_i32(&chars_of(v.as_str()));
            (SubscribeSelection { division_id, ..s }, StoredTeamAction::Keep)
        },
        SubscribeEvent::TeamChosen(v) => match parse_i32(&chars_of(v.as_str())) {
            Some(id) => (
                SubscribeSelection { tracked_team_id: Some(id), ..s },
                StoredTeamAction::Save(id),
            ),
            None => (s, StoredTeamAction::Keep),
        },
        SubscribeEvent::ChangeTeam => (
            SubscribeSelection { league_id: None, division_id: None, tracked_team_id: None },
            StoredTeamAction::Clear,
        ),
    }
}

/// The team id the browser keeps after an action.
pub open spec fn stored_after(stored: Option<i32>, action: StoredTeamAction) -> Option<i32> {
    match action {
        StoredTeamAction::Keep => stored,
        StoredTeamAction::Save(id) => Some(id),
        StoredTeamAction::Clear => None,
    }
}

/// The team id kept in the browser follows the page: where it equalled the followed team
/// before an event, it equals the followed team after it.
pub proof fn stored_team_follows_selection(
    s: SubscribeSelection,
    event: SubscribeEvent,
    stored: Option<i32>,
)
    requires
        stored == s.tracked_team_id,
    ensures
        stored_after(stored, subscribe_next(s, event).1) == subscribe_next(s, event).0.tracked_team_id,
{
}

/// Choosing a league empties the division choice, and the team menu with it.
pub proof fn league_choice_resets_division(s: SubscribeSelection, value: String, teams: Seq<Team>)
    ensures
        subscribe_next(s, SubscribeEvent::LeagueChosen(value)).0.division_id is None,
        teams_of(teams, subscribe_next(s, SubscribeEvent::LeagueChosen(value)).0.division_id)
            == Seq::<Team>::empty(),
{
}

// ----- the three menus of the older page -----

/// What the older page has chosen: a league group, a league of it, and a team.
#[derive(Clone, Copy, Debug, PartialEq, Eq)]
pub struct PickerSelection {
    pub group_id: Option<i32>,
    pub league_id: Option<i32>,
    pub team_id: Option<i32>,
}

/// A menu of the older page changed to the value it shows.
pub enum PickerEvent {
    GroupChosen(String),
    LeagueChosen(String),
    TeamChosen(String),
}

/// The selection after a menu changes: every menu below the changed one is emptied.
pub open spec fn picker_next(s: PickerSelection, event: PickerEvent) -> PickerSelection {
    match event {
        PickerEvent::GroupChosen(v) => PickerSelection {
            group_id: parse_i32_spec(v@),
            league_id: None,
            team_id: None,
        },
        PickerEvent::LeagueChosen(v) => PickerSelection {
            league_id: parse_i32_spec(v@),
            team_id: None,
            ..s
        },
        PickerEvent::TeamChosen(v) => PickerSelection { team_id: parse_i32_spec(v@), ..s },
    }
}

/// Applies one menu change of the older page.
pub fn picker_step(s: PickerSelection, event: PickerEvent) -> (next: PickerSelection)
    ensures
        next == picker_next(s, event),
{
    match event {
        PickerEvent::GroupChosen(v) => PickerSelection {
            group_id: parse_i32(&chars_of(v.as_str())),
            league_id: None,
            team_id: None,
        },
        PickerEvent::LeagueChosen(v) => PickerSelection {
            league_id: parse_i32(&chars_of(v.as_str())),
            team_id: None,
            ..s
        },
        PickerEvent::TeamChosen(v) => PickerSelection {
            team_id: parse_i32(&chars_of(v.as_str())),
            ..s
        },
    }
}

// ----- carrying over a team id from browser storage -----

/// What happens to a team id left in browser storage by an older version of the site: it is
/// adopted (and the stored copy removed) only while no team is followed yet.
pub open spec fn adoption(followed: Option<i32>, stored: Option<i32>) -> Option<i32> {
    match followed {
        Some(_) => None,
        None => stored,
    }
}

/// The team id to adopt from browser storage, if any; the stored copy is then removed.
pub fn adopt_stored_team(followed: Option<i32>, stored: Option<i32>) -> (adopted: Option<i32>)
    ensures
        adopted == adoption(followed, stored),
{
    match followed {
        Some(_) => None,
        None => stored,
    }
}

} // verus!
