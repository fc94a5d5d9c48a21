//! A followed team's upcoming fixtures, and how each one is shown from the team's side.

use vstd::prelude::*;
use chrono::{Datelike, Timelike};
use crate::datetime::{clock_label, day_label, LocalDateTime};
use crate::text::{chars_equal, chars_of, string_from, to_uppercase, uppercase};

verus! {

/// A fixture with the names of both teams.
pub struct Fixture {
    pub fixture_id: i32,
    pub home_team_id: i32,
    pub away_team_id: i32,
    pub home_team_name: String,
    pub away_team_name: String,
    pub scheduled_at: LocalDateTime,
    pub status: String,
}

/// A fixture as the published fixture list holds it, its kick-off written as text.
pub struct ListedFixture {
    pub fixture_id: i32,
    pub home_team_id: i32,
    pub away_team_id: i32,
    pub home_team_name: String,
    pub away_team_name: String,
    pub scheduled_at: String,
    pub status: String,
}

impl Fixture {
    /// An equal fixture.
    pub fn duplicate(&self) -> (f: Fixture)
        ensures
            f == *self,
    {
        Fixture {
            fixture_id: self.fixture_id,
            home_team_id: self.home_team_id,
            away_team_id: self.away_team_id,
            home_team_name: self.home_team_name.clone(),
            away_team_name: self.away_team_name.clone(),
            scheduled_at: self.scheduled_at,
            status: self.status.clone(),
        }
    }
}

impl ListedFixture {
    /// An equal fixture.
    pub fn duplicate(&self) -> (f: ListedFixture)
        ensures
            f == *self,
    {
        ListedFixture {
            fixture_id: self.fixture_id,
            home_team_id: self.home_team_id,
            away_team_id: self.away_team_id,
            home_team_name: self.home_team_name.clone(),
            away_team_name: self.away_team_name.clone(),
            scheduled_at: self.scheduled_at.clone(),
            status: self.status.clone(),
        }
    }
}

/// What `chrono::NaiveDateTime::parse_from_str(text, "%Y-%m-%dT%H:%M:%S")` returns, its fields
/// taken through `LocalDateTime::new` (which accepts every date-time chrono gives).
pub uninterp spec fn parsed_local(text: Seq<char>) -> Option<LocalDateTime>;

/// `chrono::NaiveDateTime::parse_from_str` with the format `%Y-%m-%dT%H:%M:%S`, the date-time
/// it reads taken field by field through `LocalDateTime::new`. Named result.
#[verifier::external_body]
pub(crate) fn parse_local(text: &str) -> (t: Option<LocalDateTime>)
    ensures
        t == parsed_local(text@),
{
    let parsed = chrono::NaiveDateTime::parse_from_str(text, "%Y-%m-%dT%H:%M:%S").ok()?;
    LocalDateTime::new(
        parsed.year(),
        parsed.month(),
        parsed.day(),
        parsed.hour(),
        parsed.minute(),
        parsed.second(),
        parsed.nanosecond(),
    )
}

// ----- which fixtures are upcoming -----

/// Whether the team with id `team_id` plays in a fixture.
pub open spec fn plays_in(home_team_id: i32, away_team_id: i32, team_id: i32) -> bool {
    home_team_id == team_id || away_team_id == team_id
}

/// The fixtures of the followed team that kick off at `now` or later, in list order; none while
/// no team is followed.
pub open spec fn upcoming_of(all: Seq<Fixture>, team_id: Option<i32>, now: LocalDateTime) -> Seq<
    Fixture,
> {
    match team_id {
        Some(id) => all.filter(
            |f: Fixture| plays_in(f.home_team_id, f.away_team_id, id) && !f.scheduled_at.is_before(now),
        ),
        None => Seq::empty(),
    }
}

/// The same for listed fixtures: one whose kick-off text does not read as a date-time is left out.
pub open spec fn upcoming_listed_of(
    all: Seq<ListedFixture>,
    team_id: Option<i32>,
    now: LocalDateTime,
) -> Seq<ListedFixture> {
    match team_id {
        Some(id) => all.filter(
            |f: ListedFixture|
                plays_in(f.home_team_id, f.away_team_id, id) && (match parsed_local(
                    f.scheduled_at@,
                ) {
                    Some(t) => !t.is_before(now),
                    None => false,
                }),
        ),
        None => Seq::empty(),
    }
}

/// Upcoming means kicking off now or later: every fixture listed as upcoming is one of the
/// list's, played by the followed team, and its kick-off is not before `now`; every fixture of
/// the list that the team plays and that kicks off now or later is listed; and with no team
/// followed nothing is listed.
pub proof fn upcoming_fixtures_kick_off_from_now(all: Seq<Fixture>, team_id: i32, now: LocalDateTime)
    ensures
        forall|i: int|
            0 <= i < upcoming_of(all, Some(team_id), now).len() ==> all.contains(
                #[trigger] upcoming_of(all, Some(team_id), now)[i],
            ) && (upcoming_of(all, Some(team_id), now)[i].home_team_id == team_id || upcoming_of(
                all,
                Some(team_id),
                now,
            )[i].away_team_id == team_id) && !upcoming_of(all, Some(team_id), now)[i].scheduled_at.is_before(
                now,
            ),
        forall|i: int|
            0 <= i < all.len() && (all[i].home_team_id == team_id || all[i].away_team_id == team_id)
                && !all[i].scheduled_at.is_before(now) ==> upcoming_of(all, Some(team_id), now).contains(
                #[trigger] all[i],
            ),
        upcoming_of(all, None, now).len() == 0,
{
    let pred = |f: Fixture| plays_in(f.home_team_id, f.away_team_id, team_id) && !f.scheduled_at.is_before(now);
    assert(upcoming_of(all, Some(team_id), now) == all.filter(pred));
    assert forall|i: int| 0 <= i < all.filter(pred).len() implies all.contains(#[trigger] all.filter(pred)[i])
        && pred(all.filter(pred)[i]) by {
        all.lemma_filter_pred(pred, i);
        assert(all.filter(pred).contains(all.filter(pred)[i]));
        all.lemma_filter_contains_rev(pred, all.filter(pred)[i]);
    }
    assert forall|i: int| 0 <= i < all.len() && pred(all[i]) implies all.filter(pred).contains(#[trigger] all[i]) by {
        all.lemma_filter_contains(pred, i);
    }
}

/// The upcoming fixtures of the followed team.
pub fn upcoming_fixtures(all: &Vec<Fixture>, team_id: Option<i32>, now: &LocalDateTime) -> (shown:
    Vec<Fixture>)
    ensures
        shown@ == upcoming_of(all@, team_id, *now),
{
    let mut shown: Vec<Fixture> = Vec::new();
    match team_id {
        None => {},
        Some(id) => {
            let ghost pred = |f: Fixture|
                plays_in(f.home_team_id, f.away_team_id, id) && !f.scheduled_at.is_before(*now);
            assert(all@.take(0).filter(pred) =~= Seq::<Fixture>::empty()) by {
                reveal(Seq::filter);
            }
            for i in 0..all.len()
                invariant
                    shown@ == all@.take(i as int).filter(pred),
                    pred == (|f: Fixture|
                        plays_in(f.home_team_id, f.away_team_id, id) && !f.scheduled_at.is_before(
                            *now,
                        )),
            {
                let f = &all[i];
                proof {
                    reveal(Seq::filter);
                    assert(all@.take(i + 1).drop_last() =~= all@.take(i as int));
                    assert(all@.take(i + 1).last() == all@[i as int]);
                }
                if (f.home_team_id == id || f.away_team_id == id) && !f.scheduled_at.comes_before(
                    now,
                ) {
                    shown.push(f.duplicate());
                }
            }
            assert(all@.take(all@.len() as int) =~= all@);
        },
    }
    shown
}

/// The upcoming fixtures of the followed team, from the published list.
pub fn upcoming_listed_fixtures(
    all: &Vec<ListedFixture>,
    team_id: Option<i32>,
    now: &LocalDateTime,
) -> (shown: Vec<ListedFixture>)
    ensures
        shown@ == upcoming_listed_of(all@, team_id, *now),
{
    let mut shown: Vec<ListedFixture> = Vec::new();
    match team_id {
        None => {},
        Some(id) => {
            let ghost pred = |f: ListedFixture|
                plays_in(f.home_team_id, f.away_team_id, id) && (match parsed_local(
                    f.scheduled_at@,
                ) {
                    Some(t) => !t.is_before(*now),
                    None => false,
                });
            assert(all@.take(0).filter(pred) =~= Seq::<ListedFixture>::empty()) by {
                reveal(Seq::filter);
            }
            for i in 0..all.len()
                invariant
                    shown@ == all@.take(i as int).filter(pred),
                    pred == (|f: ListedFixture|
                        plays_in(f.home_team_id, f.away_team_id, id) && (match parsed_local(
                            f.scheduled_at@,
                        ) {
                            Some(t) => !t.is_before(*now),
                            None => false,
                        })),
            {
                let f = &all[i];
                proof {
                    reveal(Seq::filter);
                    assert(all@.take(i + 1).drop_last() =~= all@.take(i as int));
                    assert(all@.take(i + 1).last() == all@[i as int]);
                }
                if f.home_team_id == id || f.away_team_id == id {
                    let keep = match parse_local(f.scheduled_at.as_str()) {
                        Some(t) => !t.comes_before(now),
                        None => false,
                    };
                    if keep {
                        shown.push(f.duplicate());
                    }
                }
            }
            assert(all@.take(all@.len() as int) =~= all@);
        },
    }
    shown
}

// ----- one fixture, seen from the followed team -----

/// How a fixture is shown to the team that follows it.
pub struct FixtureLine {
    /// Whether the followed team plays at home ("HOME", else "AWAY").
    pub is_home: bool,
    /// The other team's name.
    pub opponent: String,
    /// The status in capitals, shown for a fixture that is not simply scheduled.
    pub status_badge: Option<String>,
    /// The day, as in "Sat 7 Jun".
    pub day_label: String,
    /// The kick-off time, as in "19:30".
    pub time_label: String,
}

/// The badge shown for a status: none for "scheduled", else the status in capitals.
pub open spec fn status_badge_of(status: Seq<char>) -> Option<Seq<char>> {
    if status == "scheduled"@ {
        None
    } else {
        Some(uppercase(status))
    }
}

/// The badge shown for a fixture's status.
pub fn status_badge(status: &str) -> (badge: Option<String>)
    ensures
        match badge {
            Some(b) => status_badge_of(status@) == Some(b@),
            None => status_badge_of(status@) is None,
        },
{
    let chars = chars_of(status);
    if chars_equal(&chars, &chars_of("scheduled")) {
        None
    } else {
        Some(string_from(&to_uppercase(&chars)))
    }
}

/// Whether the followed team is the home side, and the name of the side it plays.
pub open spec fn side_of(
    home_team_id: i32,
    home_team_name: Seq<char>,
    away_team_name: Seq<char>,
    tracked_team_id: i32,
) -> (bool, Seq<char>) {
    if home_team_id == tracked_team_id {
        (true, away_team_name)
    } else {
        (false, home_team_name)
    }
}

/// A fixture seen from the followed team.
pub fn fixture_line(f: &Fixture, tracked_team_id: i32) -> (line: FixtureLine)
    ensures
        (line.is_home, line.opponent@) == side_of(
            f.home_team_id,
            f.home_team_name@,
            f.away_team_name@,
            tracked_team_id,
        ),
        match line.status_badge {
            Some(b) => status_badge_of(f.status@) == Some(b@),
            None => status_badge_of(f.status@) is None,
        },
        line.day_label@ == crate::datetime::day_label_text(f.scheduled_at),
        line.time_label@ == crate::datetime::clock_label_text(f.scheduled_at),
{
    let is_home = f.home_team_id == tracked_team_id;
    let opponent = if is_home {
        f.away_team_name.clone()
    } else {
        f.home_team_name.clone()
    };
    FixtureLine {
        is_home,
        opponent,
        status_badge: status_badge(f.status.as_str()),
        day_label: day_label(&f.scheduled_at),
        time_label: clock_label(&f.scheduled_at),
    }
}

/// A listed fixture seen from the followed team; a kick-off text that does not read as a
/// date-time gives empty day and time labels.
pub fn listed_fixture_line(f: &ListedFixture, tracked_team_id: i32) -> (line: FixtureLine)
    ensures
        (line.is_home, line.opponent@) == side_of(
            f.home_team_id,
            f.home_team_name@,
            f.away_team_name@,
            tracked_team_id,
        ),
        match line.status_badge {
            Some(b) => status_badge_of(f.status@) == Some(b@),
            None => status_badge_of(f.status@) is None,
        },
        match parsed_local(f.scheduled_at@) {
            Some(t) => line.day_label@ == crate::datetime::day_label_text(t)
                && line.time_label@ == crate::datetime::clock_label_text(t),
            None => line.day_label@ == Seq::<char>::empty() && line.time_label@ == Seq::<
                char,
            >::empty(),
        },
{
    let is_home = f.home_team_id == tracked_team_id;
    let opponent = if is_home {
        f.away_team_name.clone()
    } else {
        f.home_team_name.clone()
    };
    let (day, time) = match parse_local(f.scheduled_at.as_str()) {
        Some(t) => (day_label(&t), clock_label(&t)),
        None => (String::new(), String::new()),
    };
    FixtureLine {
        is_home,
        opponent,
        status_badge: status_badge(f.status.as_str()),
        day_label: day,
        time_label: time,
    }
}

} // verus!
