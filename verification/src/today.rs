//! Today's fixtures, grouped by league and then by division for the day's page.

use vstd::prelude::*;
use vstd::multiset::Multiset;
use crate::datetime::LocalDateTime;
use crate::parse::text_opt;
use crate::datetime::clock_label;
use crate::fixture_list::{status_badge, status_badge_of};
use crate::text::{chars_equal, chars_of, push_str, string_from};

verus! {

/// A fixture of today with the names of its league, division and venue.
pub struct TodayFixture {
    pub fixture_id: i32,
    pub scheduled_at: LocalDateTime,
    pub status: String,
    pub home_team_name: String,
    pub away_team_name: String,
    pub division_name: String,
    pub league_name: String,
    pub venue_name: Option<String>,
    pub venue_address: Option<String>,
}

/// A division of the day: its name, the venue shown for it, and its fixtures.
pub type DivisionFixtures = (String, Option<String>, Vec<TodayFixture>);

/// A league of the day: its name and its divisions.
pub type LeagueFixtures = (String, Vec<DivisionFixtures>);

pub type DivisionView = (Seq<char>, Option<Seq<char>>, Seq<TodayFixture>);

pub type LeagueView = (Seq<char>, Seq<DivisionView>);

pub open spec fn division_view(d: DivisionFixtures) -> DivisionView {
    (d.0@, text_opt(d.1), d.2@)
}

pub open spec fn league_view(l: LeagueFixtures) -> LeagueView {
    (l.0@, l.1@.map_values(|d: DivisionFixtures| division_view(d)))
}

pub open spec fn leagues_view(ls: Seq<LeagueFixtures>) -> Seq<LeagueView> {
    ls.map_values(|l: LeagueFixtures| league_view(l))
}

/// The venue shown for a division: the venue's name, else its address.
pub open spec fn venue_display(f: TodayFixture) -> Option<Seq<char>> {
    match f.venue_name {
        Some(n) => Some(n@),
        None => text_opt(f.venue_address),
    }
}

/// The index of the first league named `name`.
pub open spec fn find_league(leagues: Seq<LeagueView>, name: Seq<char>) -> Option<nat>
    decreases leagues.len(),
{
    if leagues.len() == 0 {
        None
    } else if leagues[0].0 == name {
        Some(0)
    } else {
        match find_league(leagues.drop_first(), name) {
            Some(i) => Some(i + 1),
            None => None,
        }
    }
}

/// The index of the first division named `name`.
pub open spec fn find_division(divisions: Seq<DivisionView>, name: Seq<char>) -> Option<nat>
    decreases divisions.len(),
{
    if divisions.len() == 0 {
        None
    } else if divisions[0].0 == name {
        Some(0)
    } else {
        match find_division(divisions.drop_first(), name) {
            Some(i) => Some(i + 1),
            None => None,
        }
    }
}

/// `f` placed in the groups: after the fixtures of its division in its league, or in a new
/// division (shown with `f`'s venue) at the end of its league, or in a new league at the end.
pub open spec fn place(leagues: Seq<LeagueView>, f: TodayFixture) -> Seq<LeagueView> {
    match find_league(leagues, f.league_name@) {
        Some(li) => {
            let divisions = leagues[li as int].1;
            let placed = match find_division(divisions, f.division_name@) {
                Some(di) => divisions.update(
                    di as int,
                    (divisions[di as int].0, divisions[di as int].1, divisions[di as int].2.push(f)),
                ),
                None => divisions.push((f.division_name@, venue_display(f), seq![f])),
            };
            leagues.update(li as int, (leagues[li as int].0, placed))
        },
        None => leagues.push((f.league_name@, seq![(f.division_name@, venue_display(f), seq![f])])),
    }
}

/// The fixtures grouped in the order they come.
pub open spec fn grouped(fixtures: Seq<TodayFixture>) -> Seq<LeagueView>
    decreases fixtures.len(),
{
    if fixtures.len() == 0 {
        Seq::empty()
    } else {
        place(grouped(fixtures.drop_last()), fixtures.last())
    }
}

proof fn lemma_find_league(leagues: Seq<LeagueView>, name: Seq<char>)
    ensures
        find_league(leagues, name) matches Some(i) ==> i < leagues.len() && leagues[i as int].0
            == name,
    decreases leagues.len(),
{
    if leagues.len() > 0 && leagues[0].0 != name {
        lemma_find_league(leagues.drop_first(), name);
    }
}

proof fn lemma_find_division(divisions: Seq<DivisionView>, name: Seq<char>)
    ensures
        find_division(divisions, name) matches Some(i) ==> i < divisions.len()
            && divisions[i as int].0 == name,
    decreases divisions.len(),
{
    if divisions.len() > 0 && divisions[0].0 != name {
        lemma_find_division(divisions.drop_first(), name);
    }
}

fn find_league_index(leagues: &Vec<LeagueFixtures>, name: &Vec<char>) -> (k: Option<usize>)
    ensures
        match k {
            Some(i) => find_league(leagues_view(leagues@), name@) == Some(i as nat),
            None => find_league(leagues_view(leagues@), name@) is None,
        },
{
    let ghost all = leagues_view(leagues@);
    let mut i: usize = 0;
    assert(all.skip(0) =~= all);
    while i < leagues.len()
        invariant
            i <= leagues@.len(),
            all == leagues_view(leagues@),
            match find_league(all, name@) {
                Some(j) => j >= i && find_league(all.skip(i as int), name@) == Some((j - i) as nat),
                None => find_league(all.skip(i as int), name@) is None,
            },
        decreases leagues@.len() - i,
    {
        let ghost rest = all.skip(i as int);
        assert(rest[0] == league_view(leagues@[i as int]));
        assert(rest.drop_first() =~= all.skip(i + 1));
        if chars_equal(&chars_of(leagues[i].0.as_str()), name) {
            return Some(i);
        }
        i = i + 1;
    }
    None
}

fn find_division_index(divisions: &Vec<DivisionFixtures>, name: &Vec<char>) -> (k: Option<usize>)
    ensures
        match k {
            Some(i) => find_division(
                divisions@.map_values(|d: DivisionFixtures| division_view(d)),
                name@,
            ) == Some(i as nat),
            None => find_division(
                divisions@.map_values(|d: DivisionFixtures| division_view(d)),
                name@,
            ) is None,
        },
{
    let ghost all = divisions@.map_values(|d: DivisionFixtures| division_view(d));
    let mut i: usize = 0;
    assert(all.skip(0) =~= all);
    while i < divisions.len()
        invariant
            i <= divisions@.len(),
            all == divisions@.map_values(|d: DivisionFixtures| division_view(d)),
            match find_division(all, name@) {
                Some(j) => j >= i && find_division(all.skip(i as int), name@) == Some(
                    (j - i) as nat,
                ),
                None => find_division(all.skip(i as int), name@) is None,
            },
        decreases divisions@.len() - i,
    {
        let ghost rest = all.skip(i as int);
        assert(rest[0] == division_view(divisions@[i as int]));
        assert(rest.drop_first() =~= all.skip(i + 1));
        if chars_equal(&chars_of(divisions[i].0.as_str()), name) {
            return Some(i);
        }
        i = i + 1;
    }
    None
}

fn copy_optional(s: &Option<String>) -> (c: Option<String>)
    ensures
        text_opt(c) == text_opt(*s),
{
    match s {
        Some(t) => Some(t.clone()),
        None => None,
    }
}

fn place_fixture(leagues: &mut Vec<LeagueFixtures>, f: TodayFixture)
    ensures
        leagues_view(final(leagues)@) == place(leagues_view(old(leagues)@), f),
{
    let ghost before = leagues_view(leagues@);
    let league_name = chars_of(f.league_name.as_str());
    let division_name = chars_of(f.division_name.as_str());
    let venue = match &f.venue_name {
        Some(n) => Some(n.clone()),
        None => copy_optional(&f.venue_address),
    };
    assert(text_opt(venue) == venue_display(f));
    match find_league_index(leagues, &league_name) {
        Some(li) => {
            proof {
                lemma_find_league(before, f.league_name@);
            }
            let (name, mut divisions) = leagues.remove(li);
            let ghost divisions_before = divisions@.map_values(|d: DivisionFixtures| division_view(d));
            assert(divisions_before == before[li as int].1);
            match find_division_index(&divisions, &division_name) {
                Some(di) => {
                    proof {
                        lemma_find_division(divisions_before, f.division_name@);
                    }
                    let (dname, dvenue, mut fixtures) = divisions.remove(di);
                    fixtures.push(f);
                    divisions.insert(di, (dname, dvenue, fixtures));
                    assert(divisions@.map_values(|d: DivisionFixtures| division_view(d))
                        =~= divisions_before.update(
                        di as int,
                        (
                            divisions_before[di as int].0,
                            divisions_before[di as int].1,
                            divisions_before[di as int].2.push(f),
                        ),
                    ));
                },
                None => {
                    let mut fixtures: Vec<TodayFixture> = Vec::new();
                    fixtures.push(f);
                    let ghost fixtures_view = fixtures@;
                    assert(fixtures_view =~= seq![f]);
                    divisions.push((string_from(&division_name), venue, fixtures));
                    assert(divisions@.map_values(|d: DivisionFixtures| division_view(d))
                        =~= divisions_before.push((f.division_name@, venue_display(f), seq![f])));
                },
            }
            leagues.insert(li, (name, divisions));
            assert(leagues_view(leagues@) =~= place(before, f));
        },
        None => {
            let mut fixtures: Vec<TodayFixture> = Vec::new();
            fixtures.push(f);
            assert(fixtures@ =~= seq![f]);
            let mut divisions: Vec<DivisionFixtures> = Vec::new();
            divisions.push((string_from(&division_name), venue, fixtures));
            assert(divisions@.map_values(|d: DivisionFixtures| division_view(d)) =~= seq![
                (f.division_name@, venue_display(f), seq![f]),
            ]);
            leagues.push((string_from(&league_name), divisions));
            assert(leagues_view(leagues@) =~= place(before, f));
        },
    }
}

/// Today's fixtures grouped by league, then by division, both in the order they first
/// appear; each division shows the venue of its first fixture.
pub fn group_by_league(fixtures: Vec<TodayFixture>) -> (leagues: Vec<LeagueFixtures>)
    ensures
        leagues_view(leagues@) == grouped(fixtures@),
{
    let ghost all = fixtures@;
    let total: usize = fixtures.len();
    let mut rest = fixtures;
    let mut leagues: Vec<LeagueFixtures> = Vec::new();
    let mut i: usize = 0;
    assert(all.take(0) =~= Seq::<TodayFixture>::empty());
    assert(leagues_view(leagues@) =~= Seq::<LeagueView>::empty());
    assert(all.skip(0) =~= all);
    while rest.len() > 0
        invariant
            i <= all.len(),
            i + rest@.len() == all.len(),
            all.len() == total,
            rest@ == all.skip(i as int),
            leagues_view(leagues@) == grouped(all.take(i as int)),
        decreases rest@.len(),
    {
        let f = rest.remove(0);
        proof {
            assert(f == all[i as int]);
            let taken = all.take(i + 1);
            assert(taken.drop_last() =~= all.take(i as int));
            assert(taken.last() == all[i as int]);
            assert(rest@ =~= all.skip(i + 1));
        }
        place_fixture(&mut leagues, f);
        i = i + 1;
    }
    assert(all.take(i as int) =~= all);
    leagues
}

// ----- what grouping keeps -----

/// All the fixtures of a league's divisions.
pub open spec fn division_bag(divisions: Seq<DivisionView>) -> Multiset<TodayFixture>
    decreases divisions.len(),
{
    if divisions.len() == 0 {
        Multiset::empty()
    } else {
        division_bag(divisions.drop_last()).add(divisions.last().2.to_multiset())
    }
}

/// All the fixtures of the day's groups.
pub open spec fn day_bag(leagues: Seq<LeagueView>) -> Multiset<TodayFixture>
    decreases leagues.len(),
{
    if leagues.len() == 0 {
        Multiset::empty()
    } else {
        day_bag(leagues.drop_last()).add(division_bag(leagues.last().1))
    }
}

proof fn lemma_add_swap(a: Multiset<TodayFixture>, b: Multiset<TodayFixture>, c: Multiset<TodayFixture>)
    ensures
        a.add(b).add(c) == a.add(c).add(b),
{
    broadcast use vstd::multiset::group_multiset_axioms;

    assert(a.add(b).add(c) =~= a.add(c).add(b));
}

proof fn lemma_division_bag_update(divisions: Seq<DivisionView>, i: int, d: DivisionView)
    requires
        0 <= i < divisions.len(),
    ensures
        division_bag(divisions.update(i, d)).add(divisions[i].2.to_multiset()) == division_bag(
            divisions,
        ).add(d.2.to_multiset()),
    decreases divisions.len(),
{
    let u = divisions.update(i, d);
    let old_part = divisions[i].2.to_multiset();
    let new_part = d.2.to_multiset();
    let last_part = divisions.last().2.to_multiset();
    if i == divisions.len() - 1 {
        assert(u.drop_last() =~= divisions.drop_last());
        lemma_add_swap(division_bag(divisions.drop_last()), new_part, old_part);
    } else {
        lemma_division_bag_update(divisions.drop_last(), i, d);
        assert(u.drop_last() =~= divisions.drop_last().update(i, d));
        assert(u.last() == divisions.last());
        lemma_add_swap(division_bag(u.drop_last()), last_part, old_part);
        lemma_add_swap(division_bag(divisions.drop_last()), new_part, last_part);
    }
}

proof fn lemma_day_bag_update(leagues: Seq<LeagueView>, i: int, l: LeagueView)
    requires
        0 <= i < leagues.len(),
    ensures
        day_bag(leagues.update(i, l)).add(division_bag(leagues[i].1)) == day_bag(leagues).add(
            division_bag(l.1),
        ),
    decreases leagues.len(),
{
    let u = leagues.update(i, l);
    let old_part = division_bag(leagues[i].1);
    let new_part = division_bag(l.1);
    let last_part = division_bag(leagues.last().1);
    if i == leagues.len() - 1 {
        assert(u.drop_last() =~= leagues.drop_last());
        lemma_add_swap(day_bag(leagues.drop_last()), new_part, old_part);
    } else {
        lemma_day_bag_update(leagues.drop_last(), i, l);
        assert(u.drop_last() =~= leagues.drop_last().update(i, l));
        assert(u.last() == leagues.last());
        lemma_add_swap(day_bag(u.drop_last()), last_part, old_part);
        lemma_add_swap(day_bag(leagues.drop_last()), new_part, last_part);
    }
}

proof fn lemma_add_cancel(a: Multiset<TodayFixture>, b: Multiset<TodayFixture>, c: Multiset<TodayFixture>)
    requires
        a.add(c) == b.add(c),
    ensures
        a == b,
{
    broadcast use vstd::multiset::group_multiset_axioms;

    assert forall|v: TodayFixture| a.count(v) == b.count(v) by {
        assert(a.add(c).count(v) == a.count(v) + c.count(v));
        assert(b.add(c).count(v) == b.count(v) + c.count(v));
        assert(a.add(c).count(v) == b.add(c).count(v));
    }
    assert(a =~= b);
}

proof fn lemma_single_bag(f: TodayFixture)
    ensures
        seq![f].to_multiset() =~= Multiset::empty().insert(f),
{
    broadcast use vstd::seq_lib::group_to_multiset_ensures;
    broadcast use vstd::multiset::group_multiset_axioms;

    assert(seq![f] =~= Seq::<TodayFixture>::empty().push(f));
    assert(Seq::<TodayFixture>::empty().to_multiset().len() == 0);
    vstd::multiset::lemma_multiset_empty_len(Seq::<TodayFixture>::empty().to_multiset());
}

proof fn lemma_place_bag(leagues: Seq<LeagueView>, f: TodayFixture)
    ensures
        day_bag(place(leagues, f)) == day_bag(leagues).insert(f),
{
    broadcast use vstd::seq_lib::group_to_multiset_ensures;
    broadcast use vstd::multiset::group_multiset_axioms;

    lemma_single_bag(f);
    let single = Multiset::<TodayFixture>::empty().insert(f);
    let fresh: DivisionView = (f.division_name@, venue_display(f), seq![f]);
    assert(seq![fresh].drop_last() =~= Seq::<DivisionView>::empty());
    assert(division_bag(seq![fresh]) == division_bag(Seq::<DivisionView>::empty()).add(
        seq![f].to_multiset(),
    ));
    assert(division_bag(Seq::<DivisionView>::empty()) == Multiset::<TodayFixture>::empty());
    assert(division_bag(seq![fresh]) =~= single);
    match find_league(leagues, f.league_name@) {
        Some(li) => {
            lemma_find_league(leagues, f.league_name@);
            let divisions = leagues[li as int].1;
            lemma_find_division(divisions, f.division_name@);
            let placed = match find_division(divisions, f.division_name@) {
                Some(di) => divisions.update(
                    di as int,
                    (divisions[di as int].0, divisions[di as int].1, divisions[di as int].2.push(f)),
                ),
                None => divisions.push(fresh),
            };
            match find_division(divisions, f.division_name@) {
                Some(di) => {
                    let d = divisions[di as int];
                    lemma_division_bag_update(divisions, di as int, (d.0, d.1, d.2.push(f)));
                    assert(d.2.push(f).to_multiset() =~= d.2.to_multiset().insert(f));
                    assert(d.2.push(f).to_multiset() =~= d.2.to_multiset().add(single));
                    assert(division_bag(divisions).add(d.2.push(f).to_multiset()) =~= division_bag(
                        divisions,
                    ).insert(f).add(d.2.to_multiset()));
                    lemma_add_cancel(
                        division_bag(placed),
                        division_bag(divisions).insert(f),
                        d.2.to_multiset(),
                    );
                },
                None => {
                    assert(placed.drop_last() =~= divisions);
                    assert(division_bag(placed) =~= division_bag(divisions).insert(f));
                },
            }
            let new_league = (leagues[li as int].0, placed);
            lemma_day_bag_update(leagues, li as int, new_league);
            assert(day_bag(leagues).add(division_bag(placed)) =~= day_bag(leagues).insert(f).add(
                division_bag(divisions),
            ));
            lemma_add_cancel(
                day_bag(place(leagues, f)),
                day_bag(leagues).insert(f),
                division_bag(divisions),
            );
        },
        None => {
            let added = (f.league_name@, seq![fresh]);
            assert(leagues.push(added).drop_last() =~= leagues);
            assert(day_bag(leagues.push(added)) =~= day_bag(leagues).insert(f));
        },
    }
}

/// Grouping loses no fixture of the day and shows none twice: the groups hold exactly the
/// fixtures they were made from.
pub proof fn grouping_keeps_every_fixture(fixtures: Seq<TodayFixture>)
    ensures
        day_bag(grouped(fixtures)) =~= fixtures.to_multiset(),
    decreases fixtures.len(),
{
    broadcast use vstd::seq_lib::group_to_multiset_ensures;

    if fixtures.len() == 0 {
        assert(fixtures.to_multiset().len() == 0);
        vstd::multiset::lemma_multiset_empty_len(fixtures.to_multiset());
    } else {
        grouping_keeps_every_fixture(fixtures.drop_last());
        lemma_place_bag(grouped(fixtures.drop_last()), fixtures.last());
        assert(fixtures.drop_last().push(fixtures.last()) =~= fixtures);
    }
}

/// Whether every fixture of the groups sits in the league and division it names.
pub open spec fn groups_are_faithful(leagues: Seq<LeagueView>) -> bool {
    forall|li: int, di: int, k: int|
        0 <= li < leagues.len() && 0 <= di < leagues[li].1.len() && 0 <= k
            < leagues[li].1[di].2.len() ==> (#[trigger] leagues[li].1[di].2[k]).league_name@
            == leagues[li].0 && leagues[li].1[di].2[k].division_name@ == leagues[li].1[di].0
}

/// Grouping puts every fixture under its own league and its own division.
pub proof fn grouping_keeps_names_together(fixtures: Seq<TodayFixture>)
    ensures
        groups_are_faithful(grouped(fixtures)),
    decreases fixtures.len(),
{
    if fixtures.len() > 0 {
        grouping_keeps_names_together(fixtures.drop_last());
        let leagues = grouped(fixtures.drop_last());
        let f = fixtures.last();
        lemma_find_league(leagues, f.league_name@);
        match find_league(leagues, f.league_name@) {
            Some(li) => {
                lemma_find_division(leagues[li as int].1, f.division_name@);
            },
            None => {},
        }
        let after = place(leagues, f);
        assert forall|li: int, di: int, k: int|
            0 <= li < after.len() && 0 <= di < after[li].1.len() && 0 <= k
                < after[li].1[di].2.len() implies (#[trigger] after[li].1[di].2[k]).league_name@
            == after[li].0 && after[li].1[di].2[k].division_name@ == after[li].1[di].0 by {
            if li < leagues.len() && di < leagues[li].1.len() && k < leagues[li].1[di].2.len() {
                assert(leagues[li].1[di].2[k].league_name@ == leagues[li].0);
            }
        }
    }
}

/// How a fixture of the day is shown in its division.
pub struct TodayLine {
    /// The kick-off time, as in "19:30".
    pub time_label: String,
    /// "HOME vs AWAY".
    pub teams: String,
    /// The status in capitals, for a fixture that is not simply scheduled.
    pub status_badge: Option<String>,
}

/// A fixture of the day as its line shows it.
pub fn today_line(f: &TodayFixture) -> (line: TodayLine)
    ensures
        line.time_label@ == crate::datetime::clock_label_text(f.scheduled_at),
        line.teams@ == f.home_team_name@ + " vs "@ + f.away_team_name@,
        match line.status_badge {
            Some(b) => status_badge_of(f.status@) == Some(b@),
            None => status_badge_of(f.status@) is None,
        },
{
    let mut teams: Vec<char> = Vec::new();
    push_str(&mut teams, f.home_team_name.as_str());
    push_str(&mut teams, " vs ");
    push_str(&mut teams, f.away_team_name.as_str());
    TodayLine {
        time_label: clock_label(&f.scheduled_at),
        teams: string_from(&teams),
        status_badge: status_badge(f.status.as_str()),
    }
}

} // verus!
