//! What a scrape of footballmundial.com fetches and what it stores: the page addresses, the
//! source keys that identify leagues, divisions, teams and fixtures, and the tallies it reports.

use vstd::prelude::*;
use crate::parse::{text_opt, FixtureData, LeagueEndpoint, LeagueGroupData};
use crate::text::{chars_equal, chars_of, push_signed_decimal, push_str, signed_decimal, string_from};

verus! {

pub open spec fn base_url() -> Seq<char> {
    "https://footballmundial.com"@
}

/// The page that lists the league groups.
pub fn find_league_url() -> (url: String)
    ensures
        url@ == base_url() + "/find_league"@,
{
    let mut out: Vec<char> = Vec::new();
    push_str(&mut out, "https://footballmundial.com");
    push_str(&mut out, "/find_league");
    string_from(&out)
}

/// The page of a league group, from its path.
pub fn league_group_url(path: &str) -> (url: String)
    ensures
        url@ == base_url() + path@,
{
    let mut out: Vec<char> = Vec::new();
    push_str(&mut out, "https://footballmundial.com");
    push_str(&mut out, path);
    string_from(&out)
}

/// The page of a venue, which is also the source key leagues name their venue by.
pub fn venue_url(venue_key: &str) -> (url: String)
    ensures
        url@ == base_url() + "/info/venues/"@ + venue_key@,
{
    let mut out: Vec<char> = Vec::new();
    push_str(&mut out, "https://footballmundial.com");
    push_str(&mut out, "/info/venues/");
    push_str(&mut out, venue_key);
    string_from(&out)
}

/// The page of a league, which is also the source key of its division.
pub fn league_url(league_id: &str) -> (url: String)
    ensures
        url@ == base_url() + "/info/leagues/"@ + league_id@,
{
    let mut out: Vec<char> = Vec::new();
    push_str(&mut out, "https://footballmundial.com");
    push_str(&mut out, "/info/leagues/");
    push_str(&mut out, league_id);
    string_from(&out)
}

/// The source key of a league group.
pub fn league_group_source_key(league_group_id: &str) -> (key: String)
    ensures
        key@ == base_url() + "/info/leaguegroups/"@ + league_group_id@,
{
    let mut out: Vec<char> = Vec::new();
    push_str(&mut out, "https://footballmundial.com");
    push_str(&mut out, "/info/leaguegroups/");
    push_str(&mut out, league_group_id);
    string_from(&out)
}

/// The source key of a team.
pub open spec fn team_source_key_text(team_id: i32) -> Seq<char> {
    base_url() + "/info/teams/"@ + signed_decimal(team_id as int)
}

pub fn team_source_key(team_id: i32) -> (key: String)
    ensures
        key@ == team_source_key_text(team_id),
{
    let mut out: Vec<char> = Vec::new();
    push_str(&mut out, "https://footballmundial.com");
    push_str(&mut out, "/info/teams/");
    push_signed_decimal(&mut out, team_id as i64);
    string_from(&out)
}

/// The source key of a fixture: league, home team, away team and kick-off, joined by `-`.
pub open spec fn fixture_source_key_text(
    league_id: Seq<char>,
    home_team_id: i32,
    away_team_id: i32,
    fixture_date: Seq<char>,
) -> Seq<char> {
    league_id + "-"@ + signed_decimal(home_team_id as int) + "-"@ + signed_decimal(
        away_team_id as int,
    ) + "-"@ + fixture_date
}

pub fn fixture_source_key(league_id: &str, fixture: &FixtureData) -> (key: String)
    ensures
        key@ == fixture_source_key_text(
            league_id@,
            fixture.mundial_home_team_id,
            fixture.mundial_away_team_id,
            fixture.fixture_date@,
        ),
{
    let mut out: Vec<char> = Vec::new();
    push_str(&mut out, league_id);
    push_str(&mut out, "-");
    push_signed_decimal(&mut out, fixture.mundial_home_team_id as i64);
    push_str(&mut out, "-");
    push_signed_decimal(&mut out, fixture.mundial_away_team_id as i64);
    push_str(&mut out, "-");
    push_str(&mut out, fixture.fixture_date.as_str());
    string_from(&out)
}

// ----- venues -----

/// The venue keys of the league groups, in order.
pub open spec fn group_venue_keys(groups: Seq<LeagueGroupData>) -> Seq<Seq<char>>
    decreases groups.len(),
{
    if groups.len() == 0 {
        Seq::empty()
    } else {
        let earlier = group_venue_keys(groups.drop_last());
        match groups.last().venue_source_key {
            Some(k) => earlier.push(k@),
            None => earlier,
        }
    }
}

proof fn push_to_set(s: Seq<Seq<char>>, x: Seq<char>)
    ensures
        s.push(x).to_set() == s.to_set().insert(x),
{
    assert(s.push(x) =~= s + seq![x]);
    Seq::lemma_to_set_insert_commutes(s, x);
}

/// The venues to fetch: every venue key of the league groups, once each.
pub fn distinct_venue_keys(groups: &[LeagueGroupData]) -> (keys: Vec<String>)
    ensures
        keys@.map_values(|k: String| k@).no_duplicates(),
        keys@.map_values(|k: String| k@).to_set() == group_venue_keys(groups@).to_set(),
{
    let mut keys: Vec<String> = Vec::new();
    let mut key_chars: Vec<Vec<char>> = Vec::new();
    let mut i: usize = 0;
    assert(groups@.take(0) =~= Seq::<LeagueGroupData>::empty());
    while i < groups.len()
        invariant
            i <= groups@.len(),
            keys@.len() == key_chars@.len(),
            forall|k: int| 0 <= k < keys@.len() ==> #[trigger] keys@[k]@ == key_chars@[k]@,
            keys@.map_values(|k: String| k@).no_duplicates(),
            keys@.map_values(|k: String| k@).to_set() == group_venue_keys(
                groups@.take(i as int),
            ).to_set(),
        decreases groups@.len() - i,
    {
        proof {
            let taken = groups@.take(i + 1);
            assert(taken.drop_last() =~= groups@.take(i as int));
            assert(taken.last() == groups@[i as int]);
        }
        let ghost before = keys@.map_values(|k: String| k@);
        match &groups[i].venue_source_key {
            Some(key) => {
                let candidate = chars_of(key.as_str());
                let mut seen = false;
                let mut j: usize = 0;
                while j < key_chars.len()
                    invariant
                        j <= key_chars@.len(),
                        keys@.len() == key_chars@.len(),
                        forall|k: int| 0 <= k < keys@.len() ==> #[trigger] keys@[k]@ == key_chars@[k]@,
                        seen == exists|k: int| 0 <= k < j && key_chars@[k]@ == candidate@,
                    decreases key_chars@.len() - j,
                {
                    if chars_equal(&key_chars[j], &candidate) {
                        seen = true;
                    }
                    j = j + 1;
                }
                let ghost after_groups = group_venue_keys(groups@.take(i + 1));
                assert(after_groups == group_venue_keys(groups@.take(i as int)).push(key@));
                if !seen {
                    keys.push(string_from(&candidate));
                    key_chars.push(candidate);
                    proof {
                        assert(keys@.map_values(|k: String| k@) =~= before.push(key@));
                        assert(!before.contains(key@)) by {
                            if before.contains(key@) {
                                let k = choose|k: int| 0 <= k < before.len() && before[k] == key@;
                                assert(key_chars@[k]@ == candidate@);
                            }
                        }
                        push_to_set(before, key@);
                        push_to_set(group_venue_keys(groups@.take(i as int)), key@);
                    }
                } else {
                    proof {
                        let k = choose|k: int| 0 <= k < j && key_chars@[k]@ == candidate@;
                        assert(before[k] == key@);
                        assert(before.to_set().contains(key@));
                        push_to_set(group_venue_keys(groups@.take(i as int)), key@);
                        assert(before.to_set().insert(key@) =~= before.to_set());
                    }
                }
            },
            None => {},
        }
        i = i + 1;
    }
    assert(groups@.take(groups@.len() as int) =~= groups@);
    keys
}


// ----- what is stored -----

fn copy_text(s: &String) -> (c: String)
    ensures
        c@ == s@,
{
    s.clone()
}

fn copy_optional_text(s: &Option<String>) -> (c: Option<String>)
    ensures
        text_opt(c) == text_opt(*s),
{
    match s {
        Some(t) => Some(t.clone()),
        None => None,
    }
}

/// A league as the scrape stores it.
pub struct LeagueUpsert {
    pub name: String,
    pub day_of_week: Option<i32>,
    pub source_key: String,
    pub number_of_players: Option<i32>,
    pub starts_at: Option<String>,
    pub ends_at: Option<String>,
    pub price_text: Option<String>,
    pub venue_source_key: String,
}

/// Whether `league` is what the scrape stores for `group`.
pub open spec fn stores_league(league: LeagueUpsert, group: LeagueGroupData) -> bool {
    &&& league.name@ == group.league_group_name@
    &&& league.day_of_week == group.day_of_week
    &&& league.source_key@ == base_url() + "/info/leaguegroups/"@ + group.league_group_id@
    &&& league.number_of_players == group.number_of_players
    &&& text_opt(league.starts_at) == text_opt(group.starts_at)
    &&& text_opt(league.ends_at) == text_opt(group.ends_at)
    &&& text_opt(league.price_text) == text_opt(group.price_text)
    &&& league.venue_source_key@ == match group.venue_source_key {
        Some(k) => base_url() + "/info/venues/"@ + k@,
        None => Seq::empty(),
    }
}

/// The league a league group is stored as: keyed by its group's page, and pointing at its
/// venue's page (empty where the group names no venue).
pub fn league_upsert(group: &LeagueGroupData) -> (league: LeagueUpsert)
    ensures
        stores_league(league, *group),
{
    let venue_source_key = match &group.venue_source_key {
        Some(key) => venue_url(key.as_str()),
        None => String::new(),
    };
    LeagueUpsert {
        name: copy_text(&group.league_group_name),
        day_of_week: group.day_of_week,
        source_key: league_group_source_key(group.league_group_id.as_str()),
        number_of_players: group.number_of_players,
        starts_at: copy_optional_text(&group.starts_at),
        ends_at: copy_optional_text(&group.ends_at),
        price_text: copy_optional_text(&group.price_text),
        venue_source_key,
    }
}

/// A division as the scrape stores it, with the league id whose page lists its fixtures.
pub struct DivisionUpsert {
    pub name: String,
    pub source_key: String,
    pub league_source_key: String,
    pub league_id: String,
}

impl DivisionUpsert {
    /// An equal division.
    pub fn duplicate(&self) -> (d: DivisionUpsert)
        ensures
            d == *self,
    {
        DivisionUpsert {
            name: self.name.clone(),
            source_key: self.source_key.clone(),
            league_source_key: self.league_source_key.clone(),
            league_id: self.league_id.clone(),
        }
    }
}

/// A division as (name, source key, league source key, league id).
pub open spec fn division_view(d: DivisionUpsert) -> (Seq<char>, Seq<char>, Seq<char>, Seq<char>) {
    (d.name@, d.source_key@, d.league_source_key@, d.league_id@)
}

/// The division of one league of a group: named after the league, or after the group where
/// the league has no name.
pub open spec fn division_of(group: LeagueGroupData, endpoint: LeagueEndpoint) -> (
    Seq<char>,
    Seq<char>,
    Seq<char>,
    Seq<char>,
) {
    (
        match endpoint.league_name {
            Some(n) => n@,
            None => group.league_group_name@,
        },
        base_url() + "/info/leagues/"@ + endpoint.league_id@,
        base_url() + "/info/leaguegroups/"@ + group.league_group_id@,
        endpoint.league_id@,
    )
}

/// The divisions of a league group, one per league, in order.
pub fn division_upserts(group: &LeagueGroupData) -> (divisions: Vec<DivisionUpsert>)
    ensures
        divisions@.len() == group.league_endpoints@.len(),
        forall|i: int|
            0 <= i < divisions@.len() ==> division_view(#[trigger] divisions@[i]) == division_of(
                *group,
                group.league_endpoints@[i],
            ),
{
    let league_source_key = league_group_source_key(group.league_group_id.as_str());
    let mut divisions: Vec<DivisionUpsert> = Vec::new();
    let mut i: usize = 0;
    while i < group.league_endpoints.len()
        invariant
            i <= group.league_endpoints@.len(),
            league_source_key@ == base_url() + "/info/leaguegroups/"@ + group.league_group_id@,
            divisions@.len() == i,
            forall|k: int|
                0 <= k < i ==> division_view(#[trigger] divisions@[k]) == division_of(
                    *group,
                    group.league_endpoints@[k],
                ),
        decreases group.league_endpoints@.len() - i,
    {
        let endpoint = &group.league_endpoints[i];
        let name = match &endpoint.league_name {
            Some(n) => copy_text(n),
            None => copy_text(&group.league_group_name),
        };
        divisions.push(
            DivisionUpsert {
                name,
                source_key: league_url(endpoint.league_id.as_str()),
                league_source_key: copy_text(&league_source_key),
                league_id: copy_text(&endpoint.league_id),
            },
        );
        i = i + 1;
    }
    divisions
}

/// Two teams and their fixture, as the scrape stores them.
pub struct FixtureUpsert {
    pub home_team_name: String,
    pub home_team_source_key: String,
    pub away_team_name: String,
    pub away_team_source_key: String,
    pub division_source_key: String,
    pub scheduled_at: String,
    pub source_key: String,
}

impl FixtureUpsert {
    /// An equal fixture.
    pub fn duplicate(&self) -> (f: FixtureUpsert)
        ensures
            f == *self,
    {
        FixtureUpsert {
            home_team_name: self.home_team_name.clone(),
            home_team_source_key: self.home_team_source_key.clone(),
            away_team_name: self.away_team_name.clone(),
            away_team_source_key: self.away_team_source_key.clone(),
            division_source_key: self.division_source_key.clone(),
            scheduled_at: self.scheduled_at.clone(),
            source_key: self.source_key.clone(),
        }
    }
}

/// Whether `u` stores fixture `f` of the league `league_id` in the division `division_source_key`.
pub open spec fn stores_fixture(
    u: FixtureUpsert,
    league_id: Seq<char>,
    division_source_key: Seq<char>,
    f: FixtureData,
) -> bool {
    fixture_upsert_view(u) == fixture_stored_as(league_id, division_source_key, f)
}

/// A stored fixture as (home team, its key, away team, its key, division key, kick-off, key).
pub type FixtureUpsertView = (Seq<char>, Seq<char>, Seq<char>, Seq<char>, Seq<char>, Seq<char>, Seq<char>);

pub open spec fn fixture_upsert_view(u: FixtureUpsert) -> FixtureUpsertView {
    (
        u.home_team_name@,
        u.home_team_source_key@,
        u.away_team_name@,
        u.away_team_source_key@,
        u.division_source_key@,
        u.scheduled_at@,
        u.source_key@,
    )
}

/// How fixture `f` of the league `league_id` is stored in the division `division_source_key`:
/// with its teams keyed by their pages, and itself keyed by league, teams and kick-off.
pub open spec fn fixture_stored_as(league_id: Seq<char>, division_source_key: Seq<char>, f: FixtureData) -> FixtureUpsertView {
    (
        f.mundial_home_team_name@,
        team_source_key_text(f.mundial_home_team_id),
        f.mundial_away_team_name@,
        team_source_key_text(f.mundial_away_team_id),
        division_source_key,
        f.fixture_date@,
        fixture_source_key_text(
            league_id,
            f.mundial_home_team_id,
            f.mundial_away_team_id,
            f.fixture_date@,
        ),
    )
}

/// Each side of a stored fixture keeps its own team: the home team is stored under the home
/// team's name and the key of the home team's page, the away team likewise, and swapping the
/// sides of a fixture swaps them in what is stored and in nothing else but the fixture's key.
pub proof fn stored_fixture_keeps_each_side(league_id: Seq<char>, division_source_key: Seq<char>, f: FixtureData, g: FixtureData)
    ensures
        fixture_stored_as(league_id, division_source_key, f).0 == f.mundial_home_team_name@,
        fixture_stored_as(league_id, division_source_key, f).1 == "https://footballmundial.com/info/teams/"@
            + signed_decimal(f.mundial_home_team_id as int),
        fixture_stored_as(league_id, division_source_key, f).2 == f.mundial_away_team_name@,
        fixture_stored_as(league_id, division_source_key, f).3 == "https://footballmundial.com/info/teams/"@
            + signed_decimal(f.mundial_away_team_id as int),
        fixture_stored_as(league_id, division_source_key, f).4 == division_source_key,
        fixture_stored_as(league_id, division_source_key, f).5 == f.fixture_date@,
        g.mundial_home_team_id == f.mundial_away_team_id && g.mundial_home_team_name@
            == f.mundial_away_team_name@ && g.mundial_away_team_id == f.mundial_home_team_id
            && g.mundial_away_team_name@ == f.mundial_home_team_name@ && g.fixture_date@
            == f.fixture_date@ ==> {
            let a = fixture_stored_as(league_id, division_source_key, f);
            let b = fixture_stored_as(league_id, division_source_key, g);
            b.0 == a.2 && b.1 == a.3 && b.2 == a.0 && b.3 == a.1 && b.4 == a.4 && b.5 == a.5
        },
{
    reveal_strlit("https://footballmundial.com");
    reveal_strlit("https://footballmundial.com/info/teams/");
    reveal_strlit("/info/teams/");
    assert(base_url() + "/info/teams/"@ =~= "https://footballmundial.com/info/teams/"@);
    assert(team_source_key_text(f.mundial_home_team_id) =~= "https://footballmundial.com/info/teams/"@
        + signed_decimal(f.mundial_home_team_id as int));
    assert(team_source_key_text(f.mundial_away_team_id) =~= "https://footballmundial.com/info/teams/"@
        + signed_decimal(f.mundial_away_team_id as int));
}

/// What a league's fixtures are stored as, one per fixture, in order.
pub fn fixture_upserts(league_id: &str, division_source_key: &str, fixtures: &[FixtureData]) -> (upserts:
    Vec<FixtureUpsert>)
    ensures
        upserts@.len() == fixtures@.len(),
        forall|i: int|
            0 <= i < upserts@.len() ==> stores_fixture(
                #[trigger] upserts@[i],
                league_id@,
                division_source_key@,
                fixtures@[i],
            ),
        forall|i: int|
            0 <= i < upserts@.len() ==> (#[trigger] upserts@[i]).home_team_name@
                == fixtures@[i].mundial_home_team_name@ && upserts@[i].away_team_name@
                == fixtures@[i].mundial_away_team_name@ && upserts@[i].home_team_source_key@
                == team_source_key_text(fixtures@[i].mundial_home_team_id)
                && upserts@[i].away_team_source_key@ == team_source_key_text(
                fixtures@[i].mundial_away_team_id,
            ),
{
    let mut upserts: Vec<FixtureUpsert> = Vec::new();
    let mut i: usize = 0;
    while i < fixtures.len()
        invariant
            i <= fixtures@.len(),
            upserts@.len() == i,
            forall|k: int|
                0 <= k < i ==> stores_fixture(
                    #[trigger] upserts@[k],
                    league_id@,
                    division_source_key@,
                    fixtures@[k],
                ),
        decreases fixtures@.len() - i,
    {
        let f = &fixtures[i];
        let mut division: Vec<char> = Vec::new();
        push_str(&mut division, division_source_key);
        upserts.push(
            FixtureUpsert {
                home_team_name: copy_text(&f.mundial_home_team_name),
                home_team_source_key: team_source_key(f.mundial_home_team_id),
                away_team_name: copy_text(&f.mundial_away_team_name),
                away_team_source_key: team_source_key(f.mundial_away_team_id),
                division_source_key: string_from(&division),
                scheduled_at: copy_text(&f.fixture_date),
                source_key: fixture_source_key(league_id, f),
            },
        );
        i = i + 1;
    }
    upserts
}

// ----- tallies -----

/// What a scrape reports it stored: venues, leagues, divisions, teams (two per fixture),
/// fixtures, and the stale fixtures it deleted.
pub struct ScrapeCounts {
    venues_upserted: usize,
    leagues_upserted: usize,
    divisions_upserted: usize,
    teams_upserted: usize,
    fixtures_upserted: usize,
    stale_fixtures_deleted: u64,
}

impl ScrapeCounts {
    /// Every fixture is stored with its two teams.
    #[verifier::type_invariant]
    spec fn teams_pair_fixtures(self) -> bool {
        self.teams_upserted == 2 * self.fixtures_upserted
    }

    pub closed spec fn venues(self) -> nat {
        self.venues_upserted as nat
    }

    pub closed spec fn leagues(self) -> nat {
        self.leagues_upserted as nat
    }

    pub closed spec fn divisions(self) -> nat {
        self.divisions_upserted as nat
    }

    pub closed spec fn teams(self) -> nat {
        self.teams_upserted as nat
    }

    pub closed spec fn fixtures(self) -> nat {
        self.fixtures_upserted as nat
    }

    pub closed spec fn stale_deleted(self) -> nat {
        self.stale_fixtures_deleted as nat
    }

    /// Nothing stored yet.
    pub fn new() -> (c: ScrapeCounts)
        ensures
            c.venues() == 0 && c.leagues() == 0 && c.divisions() == 0 && c.teams() == 0
                && c.fixtures() == 0 && c.stale_deleted() == 0,
    {
        ScrapeCounts {
            venues_upserted: 0,
            leagues_upserted: 0,
            divisions_upserted: 0,
            teams_upserted: 0,
            fixtures_upserted: 0,
            stale_fixtures_deleted: 0,
        }
    }

    /// One more venue stored.
    pub fn add_venue(&mut self)
        requires
            old(self).venues() < usize::MAX,
        ensures
            final(self).venues() == old(self).venues() + 1,
            final(self).leagues() == old(self).leagues(),
            final(self).divisions() == old(self).divisions(),
            final(self).teams() == old(self).teams(),
            final(self).fixtures() == old(self).fixtures(),
            final(self).stale_deleted() == old(self).stale_deleted(),
        no_unwind
    {
        proof {
            use_type_invariant(&*self);
        }
        *self = ScrapeCounts {
            venues_upserted: self.venues_upserted + 1,
            leagues_upserted: self.leagues_upserted,
            divisions_upserted: self.divisions_upserted,
            teams_upserted: self.teams_upserted,
            fixtures_upserted: self.fixtures_upserted,
            stale_fixtures_deleted: self.stale_fixtures_deleted,
        };
    }

    /// One more league stored.
    pub fn add_league(&mut self)
        requires
            old(self).leagues() < usize::MAX,
        ensures
            final(self).venues() == old(self).venues(),
            final(self).leagues() == old(self).leagues() + 1,
            final(self).divisions() == old(self).divisions(),
            final(self).teams() == old(self).teams(),
            final(self).fixtures() == old(self).fixtures(),
            final(self).stale_deleted() == old(self).stale_deleted(),
        no_unwind
    {
        proof {
            use_type_invariant(&*self);
        }
        *self = ScrapeCounts {
            venues_upserted: self.venues_upserted,
            leagues_upserted: self.leagues_upserted + 1,
            divisions_upserted: self.divisions_upserted,
            teams_upserted: self.teams_upserted,
            fixtures_upserted: self.fixtures_upserted,
            stale_fixtures_deleted: self.stale_fixtures_deleted,
        };
    }

    /// One more division stored.
    pub fn add_division(&mut self)
        requires
            old(self).divisions() < usize::MAX,
        ensures
            final(self).venues() == old(self).venues(),
            final(self).leagues() == old(self).leagues(),
            final(self).divisions() == old(self).divisions() + 1,
            final(self).teams() == old(self).teams(),
            final(self).fixtures() == old(self).fixtures(),
            final(self).stale_deleted() == old(self).stale_deleted(),
        no_unwind
    {
        proof {
            use_type_invariant(&*self);
        }
        *self = ScrapeCounts {
            venues_upserted: self.venues_upserted,
            leagues_upserted: self.leagues_upserted,
            divisions_upserted: self.divisions_upserted + 1,
            teams_upserted: self.teams_upserted,
            fixtures_upserted: self.fixtures_upserted,
            stale_fixtures_deleted: self.stale_fixtures_deleted,
        };
    }

    /// One more fixture stored, with its two teams.
    pub fn add_fixture(&mut self)
        requires
            old(self).teams() + 2 <= usize::MAX,
        ensures
            final(self).venues() == old(self).venues(),
            final(self).leagues() == old(self).leagues(),
            final(self).divisions() == old(self).divisions(),
            final(self).teams() == old(self).teams() + 2,
            final(self).fixtures() == old(self).fixtures() + 1,
            final(self).stale_deleted() == old(self).stale_deleted(),
        no_unwind
    {
        proof {
            use_type_invariant(&*self);
        }
        *self = ScrapeCounts {
            venues_upserted: self.venues_upserted,
            leagues_upserted: self.leagues_upserted,
            divisions_upserted: self.divisions_upserted,
            teams_upserted: self.teams_upserted + 2,
            fixtures_upserted: self.fixtures_upserted + 1,
            stale_fixtures_deleted: self.stale_fixtures_deleted,
        };
    }

    /// Stale fixtures deleted from a division.
    pub fn add_stale_deleted(&mut self, deleted: u64)
        requires
            old(self).stale_deleted() + deleted <= u64::MAX,
        ensures
            final(self).venues() == old(self).venues(),
            final(self).leagues() == old(self).leagues(),
            final(self).divisions() == old(self).divisions(),
            final(self).teams() == old(self).teams(),
            final(self).fixtures() == old(self).fixtures(),
            final(self).stale_deleted() == old(self).stale_deleted() + deleted,
        no_unwind
    {
        proof {
            use_type_invariant(&*self);
        }
        *self = ScrapeCounts {
            venues_upserted: self.venues_upserted,
            leagues_upserted: self.leagues_upserted,
            divisions_upserted: self.divisions_upserted,
            teams_upserted: self.teams_upserted,
            fixtures_upserted: self.fixtures_upserted,
            stale_fixtures_deleted: self.stale_fixtures_deleted + deleted,
        };
    }

    pub fn venues_upserted(&self) -> (n: usize)
        ensures
            n == self.venues(),
    {
        self.venues_upserted
    }

    pub fn leagues_upserted(&self) -> (n: usize)
        ensures
            n == self.leagues(),
    {
        self.leagues_upserted
    }

    pub fn divisions_upserted(&self) -> (n: usize)
        ensures
            n == self.divisions(),
    {
        self.divisions_upserted
    }

    /// The teams stored: always two per fixture.
    pub fn teams_upserted(&self) -> (n: usize)
        ensures
            n == self.teams(),
            self.teams() == 2 * self.fixtures(),
    {
        proof {
            use_type_invariant(self);
        }
        self.teams_upserted
    }

    pub fn fixtures_upserted(&self) -> (n: usize)
        ensures
            n == self.fixtures(),
    {
        self.fixtures_upserted
    }

    pub fn stale_fixtures_deleted(&self) -> (n: u64)
        ensures
            n == self.stale_deleted(),
    {
        self.stale_fixtures_deleted
    }
}

} // verus!
