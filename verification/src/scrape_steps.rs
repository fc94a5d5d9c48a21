//! A scrape as a sequence of steps. The library decides which page to read and what to store
//! next; the program around it fetches and stores, and hands back what each page held.
//!
//! The order is: the league index; each league group page; each venue of the groups (read,
//! then stored); each league with its divisions; and for each division its fixture page, each
//! fixture of it stored, and then the division's other fixtures deleted.

use vstd::prelude::*;
use crate::parse::{text_opt, FixtureData, LeagueGroupData, LeagueEndpoint, VenueData};
use crate::scrape::{
    base_url, distinct_venue_keys, division_of, division_upserts, division_view, find_league_url,
    fixture_stored_as, fixture_upsert_view, fixture_upserts, group_venue_keys, league_group_url,
    league_upsert, league_url, stores_league, venue_url, DivisionUpsert, FixtureUpsert,
    FixtureUpsertView, LeagueUpsert, ScrapeCounts,
};

verus! {

/// Where a scrape stands.
#[derive(Clone, Copy, Debug, PartialEq, Eq)]
pub enum ScrapeStage {
    /// The league index is to be read.
    ReadLeagueIndex,
    /// The page of the league group with this index is to be read.
    ReadLeagueGroup(usize),
    /// The page of the venue with this index is to be read.
    ReadVenue(usize),
    /// The venue with this index, just read, is to be stored.
    StoreVenue(usize),
    /// The league of the group with this index is to be stored.
    StoreLeague(usize),
    /// Division `.1` of group `.0` is to be stored.
    StoreDivision(usize, usize),
    /// The fixture page of the division with this index is to be read.
    ReadFixtures(usize),
    /// Fixture `.1` of division `.0` is to be stored; past the last one, the division's other
    /// fixtures are to be deleted.
    StoreFixture(usize, usize),
    /// Nothing is left to do.
    Done,
}

/// What the program around the scrape is asked to do next.
pub enum ScrapeStep {
    /// Fetch the league index, then hand over the league group paths read from it.
    FetchLeagueIndex { url: String },
    /// Fetch a league group's page, then hand over the group read from it (with `path`).
    FetchLeagueGroup { url: String, path: String },
    /// Fetch a venue's page, then hand over the venue read from it.
    FetchVenue { url: String },
    /// Store a venue under its key.
    StoreVenue { source_key: String, name: String, address: Option<String> },
    /// Store a league group as a league.
    StoreLeague(LeagueUpsert),
    /// Store a division of the league just stored.
    StoreDivision(DivisionUpsert),
    /// Fetch a league's fixture page, then hand over the fixtures read from it.
    FetchFixtures { url: String, league_id: String },
    /// Store a fixture with its two teams.
    StoreFixture(FixtureUpsert),
    /// Delete the division's fixtures whose keys are not among those just stored.
    DeleteStale { division_source_key: String, active_source_keys: Vec<String> },
    /// The scrape is over.
    Finished,
}

/// A division as (name, source key, league source key, league id).
pub type DivisionUpsertView = (Seq<char>, Seq<char>, Seq<char>, Seq<char>);

/// A scrape in progress.
pub struct Scrape {
    stage: ScrapeStage,
    group_paths: Vec<String>,
    groups: Vec<LeagueGroupData>,
    venue_keys: Vec<String>,
    venue_name: String,
    venue_address: Option<String>,
    group_divisions: Vec<DivisionUpsert>,
    divisions: Vec<DivisionUpsert>,
    pending: Vec<FixtureUpsert>,
    counts: ScrapeCounts,
}

/// A scrape as plain values.
pub struct ScrapeView {
    pub stage: ScrapeStage,
    /// The league group paths the index listed.
    pub group_paths: Seq<Seq<char>>,
    /// The league groups read so far.
    pub groups: Seq<LeagueGroupData>,
    /// The venues to read, once the groups are read.
    pub venue_keys: Seq<Seq<char>>,
    /// The venue last read.
    pub venue_name: Seq<char>,
    pub venue_address: Option<Seq<char>>,
    /// The divisions of the league being stored.
    pub group_divisions: Seq<DivisionUpsertView>,
    /// The divisions stored so far; their fixtures are read afterwards.
    pub divisions: Seq<DivisionUpsertView>,
    /// The fixtures read for the division at hand.
    pub pending: Seq<FixtureUpsertView>,
    /// The tallies: venues, leagues, divisions and fixtures stored (teams are twice the
    /// fixtures), and stale fixtures deleted.
    pub venues: nat,
    pub leagues: nat,
    pub division_count: nat,
    pub fixtures: nat,
    pub stale_deleted: nat,
}

/// The texts of a list of strings.
pub open spec fn texts(v: Seq<String>) -> Seq<Seq<char>> {
    v.map_values(|s: String| s@)
}

/// The divisions of a list, as plain values.
pub open spec fn division_views(v: Seq<DivisionUpsert>) -> Seq<DivisionUpsertView> {
    v.map_values(|d: DivisionUpsert| division_view(d))
}

/// The fixtures of a list, as plain values.
pub open spec fn fixture_views(v: Seq<FixtureUpsert>) -> Seq<FixtureUpsertView> {
    v.map_values(|f: FixtureUpsert| fixture_upsert_view(f))
}

impl View for Scrape {
    type V = ScrapeView;

    closed spec fn view(&self) -> ScrapeView {
        ScrapeView {
            stage: self.stage,
            group_paths: texts(self.group_paths@),
            groups: self.groups@,
            venue_keys: texts(self.venue_keys@),
            venue_name: self.venue_name@,
            venue_address: text_opt(self.venue_address),
            group_divisions: division_views(self.group_divisions@),
            divisions: division_views(self.divisions@),
            pending: fixture_views(self.pending@),
            venues: self.counts.venues(),
            leagues: self.counts.leagues(),
            division_count: self.counts.divisions(),
            fixtures: self.counts.fixtures(),
            stale_deleted: self.counts.stale_deleted(),
        }
    }
}

/// Whether the indices of a stage fall within the lists they index.
pub open spec fn stage_in_range(v: ScrapeView) -> bool {
    match v.stage {
        ScrapeStage::ReadLeagueGroup(i) => i < v.group_paths.len(),
        ScrapeStage::ReadVenue(j) => j < v.venue_keys.len(),
        ScrapeStage::StoreVenue(j) => j < v.venue_keys.len(),
        ScrapeStage::StoreLeague(g) => g < v.groups.len(),
        ScrapeStage::StoreDivision(g, d) => g < v.groups.len() && d < v.group_divisions.len(),
        ScrapeStage::ReadFixtures(k) => k < v.divisions.len(),
        ScrapeStage::StoreFixture(k, m) => k < v.divisions.len() && m <= v.pending.len(),
        _ => true,
    }
}

impl Scrape {
    #[verifier::type_invariant]
    spec fn indices_in_range(self) -> bool {
        stage_in_range(self@)
    }
}

// ----- where the stages lead -----

/// The stage from league `g` on: that league, or once the leagues are done, the first
/// division's fixtures, or the end.
pub open spec fn leagues_from(g: int, groups_len: int, divisions_len: int) -> ScrapeStage {
    if g < groups_len {
        ScrapeStage::StoreLeague(g as usize)
    } else if divisions_len > 0 {
        ScrapeStage::ReadFixtures(0)
    } else {
        ScrapeStage::Done
    }
}

/// The stage from venue `j` on.
pub open spec fn venues_from(j: int, keys_len: int, groups_len: int, divisions_len: int) -> ScrapeStage {
    if j < keys_len {
        ScrapeStage::ReadVenue(j as usize)
    } else {
        leagues_from(0, groups_len, divisions_len)
    }
}

/// The divisions a league group is stored with, one per league of the group.
pub open spec fn divisions_of_group(group: LeagueGroupData) -> Seq<DivisionUpsertView> {
    group.league_endpoints@.map_values(|e: LeagueEndpoint| division_of(group, e))
}

/// What the next step is for a scrape.
pub open spec fn is_step(v: ScrapeView, step: ScrapeStep) -> bool {
    match v.stage {
        ScrapeStage::ReadLeagueIndex => step matches ScrapeStep::FetchLeagueIndex { url } && url@
            == base_url() + "/find_league"@,
        ScrapeStage::ReadLeagueGroup(i) => step matches ScrapeStep::FetchLeagueGroup { url, path }
            && path@ == v.group_paths[i as int] && url@ == base_url() + v.group_paths[i as int],
        ScrapeStage::ReadVenue(j) => step matches ScrapeStep::FetchVenue { url } && url@ == base_url()
            + "/info/venues/"@ + v.venue_keys[j as int],
        ScrapeStage::StoreVenue(j) => step matches ScrapeStep::StoreVenue { source_key, name, address }
            && source_key@ == v.venue_keys[j as int] && name@ == v.venue_name && text_opt(address)
            == v.venue_address,
        ScrapeStage::StoreLeague(g) => step matches ScrapeStep::StoreLeague(league) && stores_league(
            league,
            v.groups[g as int],
        ),
        ScrapeStage::StoreDivision(_, d) => step matches ScrapeStep::StoreDivision(division)
            && division_view(division) == v.group_divisions[d as int],
        ScrapeStage::ReadFixtures(k) => step matches ScrapeStep::FetchFixtures { url, league_id }
            && league_id@ == v.divisions[k as int].3 && url@ == base_url() + "/info/leagues/"@
            + league_id@,
        ScrapeStage::StoreFixture(k, m) => if m < v.pending.len() {
            step matches ScrapeStep::StoreFixture(f) && fixture_upsert_view(f) == v.pending[m as int]
        } else {
            step matches ScrapeStep::DeleteStale { division_source_key, active_source_keys }
                && division_source_key@ == v.divisions[k as int].1 && texts(active_source_keys@)
                == v.pending.map_values(|f: FixtureUpsertView| f.6)
        },
        ScrapeStage::Done => step is Finished,
    }
}

/// A scrape once the league index was read (at any other stage, unchanged).
pub open spec fn after_league_index(v: ScrapeView, paths: Seq<Seq<char>>) -> ScrapeView {
    match v.stage {
        ScrapeStage::ReadLeagueIndex => ScrapeView {
            stage: if paths.len() > 0 {
                ScrapeStage::ReadLeagueGroup(0)
            } else {
                ScrapeStage::Done
            },
            group_paths: paths,
            ..v
        },
        _ => v,
    }
}

/// Whether `w` is the scrape `v` once a league group's page was read: the group is kept, and
/// after the last group, the venues to read are every venue key of the groups, once each (at
/// any other stage, the scrape is unchanged).
pub open spec fn after_league_group(v: ScrapeView, group: LeagueGroupData, w: ScrapeView) -> bool {
    match v.stage {
        ScrapeStage::ReadLeagueGroup(i) => {
            let groups = v.groups.push(group);
            if i + 1 < v.group_paths.len() {
                w == ScrapeView { stage: ScrapeStage::ReadLeagueGroup((i + 1) as usize), groups, ..v }
            } else {
                &&& w.venue_keys.no_duplicates()
                &&& w.venue_keys.to_set() == group_venue_keys(groups).to_set()
                &&& w == ScrapeView {
                    stage: venues_from(
                        0,
                        w.venue_keys.len() as int,
                        groups.len() as int,
                        v.divisions.len() as int,
                    ),
                    groups,
                    venue_keys: w.venue_keys,
                    ..v
                }
            }
        },
        _ => w == v,
    }
}

/// A scrape once a venue was read (at any other stage, unchanged).
pub open spec fn after_venue(v: ScrapeView, name: Seq<char>, address: Option<Seq<char>>) -> ScrapeView {
    match v.stage {
        ScrapeStage::ReadVenue(j) => ScrapeView {
            stage: ScrapeStage::StoreVenue(j),
            venue_name: name,
            venue_address: address,
            ..v
        },
        _ => v,
    }
}

/// A scrape once a division's fixtures were read (at any other stage, unchanged).
pub open spec fn after_fixtures(v: ScrapeView, fixtures: Seq<FixtureData>) -> ScrapeView {
    match v.stage {
        ScrapeStage::ReadFixtures(k) => ScrapeView {
            stage: ScrapeStage::StoreFixture(k, 0),
            pending: fixtures.map_values(
                |f: FixtureData| fixture_stored_as(v.divisions[k as int].3, v.divisions[k as int].1, f),
            ),
            ..v
        },
        _ => v,
    }
}

/// A scrape once the step at hand was stored (at a stage that stores nothing, unchanged). A
/// tally that would pass the largest value of its type stays where it is.
pub open spec fn after_stored(v: ScrapeView) -> ScrapeView {
    match v.stage {
        ScrapeStage::StoreVenue(j) => ScrapeView {
            stage: venues_from(
                j + 1,
                v.venue_keys.len() as int,
                v.groups.len() as int,
                v.divisions.len() as int,
            ),
            venues: if v.venues < usize::MAX {
                v.venues + 1
            } else {
                v.venues
            },
            ..v
        },
        ScrapeStage::StoreLeague(g) => {
            let ds = divisions_of_group(v.groups[g as int]);
            ScrapeView {
                stage: if ds.len() > 0 {
                    ScrapeStage::StoreDivision(g, 0)
                } else {
                    leagues_from(g + 1, v.groups.len() as int, v.divisions.len() as int)
                },
                group_divisions: ds,
                leagues: if v.leagues < usize::MAX {
                    v.leagues + 1
                } else {
                    v.leagues
                },
                ..v
            }
        },
        ScrapeStage::StoreDivision(g, d) => {
            let divisions = v.divisions.push(v.group_divisions[d as int]);
            ScrapeView {
                stage: if d + 1 < v.group_divisions.len() {
                    ScrapeStage::StoreDivision(g, (d + 1) as usize)
                } else {
                    leagues_from(g + 1, v.groups.len() as int, divisions.len() as int)
                },
                divisions,
                division_count: if v.division_count < usize::MAX {
                    v.division_count + 1
                } else {
                    v.division_count
                },
                ..v
            }
        },
        ScrapeStage::StoreFixture(k, m) => if m < v.pending.len() {
            ScrapeView {
                stage: ScrapeStage::StoreFixture(k, (m + 1) as usize),
                fixtures: if 2 * v.fixtures + 2 <= usize::MAX {
                    v.fixtures + 1
                } else {
                    v.fixtures
                },
                ..v
            }
        } else {
            v
        },
        _ => v,
    }
}

/// A scrape once the division's stale fixtures were deleted, `deleted` of them (at any other
/// stage, unchanged).
pub open spec fn after_deleted(v: ScrapeView, deleted: nat) -> ScrapeView {
    match v.stage {
        ScrapeStage::StoreFixture(k, m) => if m >= v.pending.len() {
            ScrapeView {
                stage: if k + 1 < v.divisions.len() {
                    ScrapeStage::ReadFixtures((k + 1) as usize)
                } else {
                    ScrapeStage::Done
                },
                stale_deleted: if v.stale_deleted + deleted <= u64::MAX {
                    v.stale_deleted + deleted
                } else {
                    v.stale_deleted
                },
                ..v
            }
        } else {
            v
        },
        _ => v,
    }
}

/// The scrape after `n` reports that the step at hand was stored.
pub open spec fn stored_times(v: ScrapeView, n: nat) -> ScrapeView
    decreases n,
{
    if n == 0 {
        v
    } else {
        after_stored(stored_times(v, (n - 1) as nat))
    }
}

proof fn storing_fixtures_advances(w: ScrapeView, k: usize, m: nat)
    requires
        w.stage == ScrapeStage::StoreFixture(k, 0),
        m <= w.pending.len(),
        w.pending.len() <= usize::MAX,
    ensures
        stored_times(w, m).stage == ScrapeStage::StoreFixture(k, m as usize),
        stored_times(w, m).pending == w.pending,
        stored_times(w, m).divisions == w.divisions,
    decreases m,
{
    if m > 0 {
        storing_fixtures_advances(w, k, (m - 1) as nat);
    }
}

/// Once a division's fixture page is read, the scrape asks to store each fixture read, in
/// order; after the last it asks to delete the division's other fixtures, sparing exactly
/// the fixtures just read.
pub proof fn fixtures_stored_before_stale_deletion(
    v: ScrapeView,
    fixtures: Seq<FixtureData>,
    k: usize,
)
    requires
        v.stage == ScrapeStage::ReadFixtures(k),
        k < v.divisions.len(),
        fixtures.len() <= usize::MAX,
    ensures
        forall|m: nat, step: ScrapeStep|
            m < fixtures.len() && #[trigger] is_step(
                stored_times(after_fixtures(v, fixtures), m),
                step,
            ) ==> (step matches ScrapeStep::StoreFixture(f) && fixture_upsert_view(f)
                == fixture_stored_as(v.divisions[k as int].3, v.divisions[k as int].1, fixtures[m as int])),
        forall|step: ScrapeStep|
            #[trigger] is_step(stored_times(after_fixtures(v, fixtures), fixtures.len()), step)
                ==> (step matches ScrapeStep::DeleteStale { division_source_key, active_source_keys }
                && division_source_key@ == v.divisions[k as int].1 && texts(active_source_keys@)
                == fixtures.map_values(
                |f: FixtureData| fixture_stored_as(v.divisions[k as int].3, v.divisions[k as int].1, f).6,
            )),
{
    let w = after_fixtures(v, fixtures);
    let d = v.divisions[k as int];
    assert forall|m: nat, step: ScrapeStep|
        m < fixtures.len() && #[trigger] is_step(stored_times(w, m), step) implies (step matches ScrapeStep::StoreFixture(f)
            && fixture_upsert_view(f) == fixture_stored_as(d.3, d.1, fixtures[m as int])) by {
        storing_fixtures_advances(w, k, m);
    }
    storing_fixtures_advances(w, k, fixtures.len());
    assert(w.pending.map_values(|f: FixtureUpsertView| f.6) =~= fixtures.map_values(
        |f: FixtureData| fixture_stored_as(d.3, d.1, f).6,
    ));
}

/// The divisions of the league groups, group after group, each group's in its own order.
pub open spec fn all_divisions(groups: Seq<LeagueGroupData>) -> Seq<DivisionUpsertView>
    decreases groups.len(),
{
    if groups.len() == 0 {
        Seq::empty()
    } else {
        all_divisions(groups.drop_last()) + divisions_of_group(groups.last())
    }
}

/// Whether the divisions stored so far are those of the league groups before the one at hand
/// (and, while a group is stored, its first divisions); once the leagues are done, the
/// divisions of every group.
pub open spec fn divisions_follow_groups(v: ScrapeView) -> bool {
    match v.stage {
        ScrapeStage::ReadLeagueIndex => v.groups.len() == 0 && v.divisions.len() == 0,
        ScrapeStage::ReadLeagueGroup(_) => v.divisions.len() == 0,
        ScrapeStage::ReadVenue(_) => v.divisions.len() == 0,
        ScrapeStage::StoreVenue(_) => v.divisions.len() == 0,
        ScrapeStage::StoreLeague(g) => v.divisions == all_divisions(v.groups.take(g as int)),
        ScrapeStage::StoreDivision(g, d) => {
            &&& v.group_divisions == divisions_of_group(v.groups[g as int])
            &&& v.divisions == all_divisions(v.groups.take(g as int)) + v.group_divisions.take(
                d as int,
            )
        },
        _ => v.divisions == all_divisions(v.groups),
    }
}

proof fn one_more_group(groups: Seq<LeagueGroupData>, g: int)
    requires
        0 <= g < groups.len(),
    ensures
        all_divisions(groups.take(g + 1)) == all_divisions(groups.take(g)) + divisions_of_group(
            groups[g],
        ),
{
    assert(groups.take(g + 1).drop_last() =~= groups.take(g));
}

proof fn leagues_from_keep_order(v: ScrapeView, g: int)
    requires
        0 <= g <= v.groups.len(),
        v.groups.len() <= usize::MAX,
        v.divisions == all_divisions(v.groups.take(g)),
    ensures
        divisions_follow_groups(
            ScrapeView {
                stage: leagues_from(g, v.groups.len() as int, v.divisions.len() as int),
                ..v
            },
        ),
{
    assert(v.groups.take(v.groups.len() as int) =~= v.groups);
}

/// Every step of a scrape keeps the divisions in league group order: while the leagues are
/// stored, the divisions stored are those of the groups stored so far, and from then on (so
/// whenever a fixture page is read) they are the divisions of every league group, group after
/// group. (Of a scrape whose lists have lengths that a vector can hold.)
pub proof fn every_step_keeps_divisions_in_group_order(
    v: ScrapeView,
    paths: Seq<Seq<char>>,
    group: LeagueGroupData,
    name: Seq<char>,
    address: Option<Seq<char>>,
    fixtures: Seq<FixtureData>,
    deleted: nat,
)
    requires
        stage_in_range(v),
        divisions_follow_groups(v),
        v.groups.len() < usize::MAX,
        v.group_divisions.len() <= usize::MAX,
    ensures
        divisions_follow_groups(after_league_index(v, paths)),
        forall|w: ScrapeView| after_league_group(v, group, w) ==> divisions_follow_groups(w),
        divisions_follow_groups(after_venue(v, name, address)),
        divisions_follow_groups(after_stored(v)),
        divisions_follow_groups(after_fixtures(v, fixtures)),
        divisions_follow_groups(after_deleted(v, deleted)),
{
    assert(v.groups.take(0) =~= Seq::<LeagueGroupData>::empty());
    match v.stage {
        ScrapeStage::ReadLeagueIndex => {
            assert(v.divisions =~= Seq::<DivisionUpsertView>::empty());
        },
        ScrapeStage::ReadLeagueGroup(i) => {
            assert forall|w: ScrapeView| after_league_group(v, group, w) implies divisions_follow_groups(w) by {
                if i + 1 >= v.group_paths.len() && w.venue_keys.len() == 0 {
                    assert(v.divisions =~= Seq::<DivisionUpsertView>::empty());
                    assert(w.groups.take(0) =~= Seq::<LeagueGroupData>::empty());
                    leagues_from_keep_order(w, 0);
                }
            }
        },
        ScrapeStage::StoreVenue(j) => {
            if j + 1 >= v.venue_keys.len() {
                assert(v.divisions =~= Seq::<DivisionUpsertView>::empty());
                leagues_from_keep_order(v, 0);
            }
        },
        ScrapeStage::StoreLeague(g) => {
            let ds = divisions_of_group(v.groups[g as int]);
            one_more_group(v.groups, g as int);
            if ds.len() > 0 {
                assert(ds.take(0) =~= Seq::<DivisionUpsertView>::empty());
                assert(v.divisions + ds.take(0) =~= v.divisions);
            } else {
                assert(v.divisions + ds =~= v.divisions);
                leagues_from_keep_order(ScrapeView { group_divisions: ds, ..v }, g + 1);
            }
        },
        ScrapeStage::StoreDivision(g, d) => {
            let divisions = v.divisions.push(v.group_divisions[d as int]);
            let before = all_divisions(v.groups.take(g as int));
            assert(divisions =~= before + v.group_divisions.take(d + 1));
            if d + 1 >= v.group_divisions.len() {
                one_more_group(v.groups, g as int);
                assert(v.group_divisions.take(d + 1) =~= v.group_divisions);
                leagues_from_keep_order(ScrapeView { divisions, ..v }, g + 1);
            }
        },
        _ => {},
    }
}

// ----- the scrape itself -----

fn copy_optional(s: &Option<String>) -> (c: Option<String>)
    ensures
        c == *s,
{
    match s {
        Some(t) => Some(t.clone()),
        None => None,
    }
}

fn keys_of(pending: &Vec<FixtureUpsert>) -> (keys: Vec<String>)
    ensures
        texts(keys@) == fixture_views(pending@).map_values(|f: FixtureUpsertView| f.6),
{
    let mut keys: Vec<String> = Vec::new();
    let mut i: usize = 0;
    while i < pending.len()
        invariant
            i <= pending@.len(),
            texts(keys@) == fixture_views(pending@.take(i as int)).map_values(
                |f: FixtureUpsertView| f.6,
            ),
        decreases pending@.len() - i,
    {
        keys.push(pending[i].source_key.clone());
        assert(fixture_views(pending@.take(i + 1)).map_values(|f: FixtureUpsertView| f.6)
            =~= fixture_views(pending@.take(i as int)).map_values(|f: FixtureUpsertView| f.6).push(
            pending@[i as int].source_key@,
        ));
        assert(texts(keys@) =~= texts(keys@.drop_last()).push(keys@.last()@));
        i = i + 1;
    }
    assert(pending@.take(pending@.len() as int) =~= pending@);
    keys
}

impl Scrape {
    /// A scrape about to read the league index, with nothing stored yet.
    pub fn new() -> (s: Scrape)
        ensures
            s@.stage == ScrapeStage::ReadLeagueIndex,
            s@.group_paths.len() == 0,
            s@.groups.len() == 0,
            s@.venue_keys.len() == 0,
            s@.venue_name.len() == 0,
            s@.venue_address is None,
            s@.group_divisions.len() == 0,
            s@.divisions.len() == 0,
            s@.pending.len() == 0,
            s@.venues == 0 && s@.leagues == 0 && s@.division_count == 0 && s@.fixtures == 0
                && s@.stale_deleted == 0,
            divisions_follow_groups(s@),
    {
        Scrape {
            stage: ScrapeStage::ReadLeagueIndex,
            group_paths: Vec::new(),
            groups: Vec::new(),
            venue_keys: Vec::new(),
            venue_name: String::new(),
            venue_address: None,
            group_divisions: Vec::new(),
            divisions: Vec::new(),
            pending: Vec::new(),
            counts: ScrapeCounts::new(),
        }
    }

    /// Where the scrape stands.
    pub fn stage(&self) -> (stage: ScrapeStage)
        ensures
            stage == self@.stage,
    {
        self.stage
    }

    /// The tallies of what was stored and deleted.
    pub fn counts(&self) -> (counts: &ScrapeCounts)
        ensures
            counts.venues() == self@.venues,
            counts.leagues() == self@.leagues,
            counts.divisions() == self@.division_count,
            counts.fixtures() == self@.fixtures,
            counts.teams() == 2 * self@.fixtures,
            counts.stale_deleted() == self@.stale_deleted,
    {
        let counts = &self.counts;
        // asking for the teams brings in that they are twice the fixtures
        let _ = counts.teams_upserted();
        counts
    }

    /// What to do next.
    pub fn step(&self) -> (step: ScrapeStep)
        ensures
            is_step(self@, step),
    {
        proof {
            use_type_invariant(self);
        }
        match self.stage {
            ScrapeStage::ReadLeagueIndex => ScrapeStep::FetchLeagueIndex { url: find_league_url() },
            ScrapeStage::ReadLeagueGroup(i) => {
                let path = self.group_paths[i].clone();
                let url = league_group_url(path.as_str());
                ScrapeStep::FetchLeagueGroup { url, path }
            },
            ScrapeStage::ReadVenue(j) => ScrapeStep::FetchVenue {
                url: venue_url(self.venue_keys[j].as_str()),
            },
            ScrapeStage::StoreVenue(j) => ScrapeStep::StoreVenue {
                source_key: self.venue_keys[j].clone(),
                name: self.venue_name.clone(),
                address: copy_optional(&self.venue_address),
            },
            ScrapeStage::StoreLeague(g) => ScrapeStep::StoreLeague(league_upsert(&self.groups[g])),
            ScrapeStage::StoreDivision(_, d) => ScrapeStep::StoreDivision(
                self.group_divisions[d].duplicate(),
            ),
            ScrapeStage::ReadFixtures(k) => {
                let league_id = self.divisions[k].league_id.clone();
                let url = league_url(league_id.as_str());
                ScrapeStep::FetchFixtures { url, league_id }
            },
            ScrapeStage::StoreFixture(k, m) => if m < self.pending.len() {
                ScrapeStep::StoreFixture(self.pending[m].duplicate())
            } else {
                ScrapeStep::DeleteStale {
                    division_source_key: self.divisions[k].source_key.clone(),
                    active_source_keys: keys_of(&self.pending),
                }
            },
            ScrapeStage::Done => ScrapeStep::Finished,
        }
    }

    /// Hands over the league group paths read from the league index.
    pub fn league_index_read(&mut self, paths: Vec<String>)
        ensures
            final(self)@ == after_league_index(old(self)@, texts(paths@)),
    {
        match self.stage {
            ScrapeStage::ReadLeagueIndex => {
                let has_groups = paths.len() > 0;
                self.group_paths = paths;
                if has_groups {
                    self.stage = ScrapeStage::ReadLeagueGroup(0);
                } else {
                    self.stage = ScrapeStage::Done;
                }
            },
            _ => {},
        }
    }

    /// Hands over the venue read from a venue's page.
    pub fn venue_read(&mut self, venue: VenueData)
        ensures
            final(self)@ == after_venue(old(self)@, venue.name@, text_opt(venue.address)),
    {
        proof {
            use_type_invariant(&*self);
        }
        match self.stage {
            ScrapeStage::ReadVenue(j) => {
                self.venue_name = venue.name;
                self.venue_address = venue.address;
                self.stage = ScrapeStage::StoreVenue(j);
            },
            _ => {},
        }
    }

    /// Hands over the fixtures read from a division's fixture page.
    pub fn fixtures_read(&mut self, fixtures: Vec<FixtureData>)
        ensures
            final(self)@ == after_fixtures(old(self)@, fixtures@),
    {
        proof {
            use_type_invariant(&*self);
        }
        match self.stage {
            ScrapeStage::ReadFixtures(k) => {
                let pending = fixture_upserts(
                    self.divisions[k].league_id.as_str(),
                    self.divisions[k].source_key.as_str(),
                    fixtures.as_slice(),
                );
                proof {
                    let d = division_view(self.divisions@[k as int]);
                    assert(fixture_views(pending@) =~= fixtures@.map_values(
                        |f: FixtureData| fixture_stored_as(d.3, d.1, f),
                    ));
                }
                self.pending = pending;
                self.stage = ScrapeStage::StoreFixture(k, 0);
            },
            _ => {},
        }
    }

    /// Reports how many stale fixtures the deletion removed.
    pub fn stale_deleted(&mut self, deleted: u64)
        ensures
            final(self)@ == after_deleted(old(self)@, deleted as nat),
    {
        proof {
            use_type_invariant(&*self);
        }
        match self.stage {
            ScrapeStage::StoreFixture(k, m) => {
                if m >= self.pending.len() {
                    let n = self.divisions.len();
                    let more = k + 1 < n;
                    if self.counts.stale_fixtures_deleted() <= u64::MAX - deleted {
                        self.counts.add_stale_deleted(deleted);
                    }
                    if more {
                        self.stage = ScrapeStage::ReadFixtures(k + 1);
                    } else {
                        self.stage = ScrapeStage::Done;
                    }
                }
            },
            _ => {},
        }
    }

    /// The stage from league `g` on.
    fn leagues_stage(&self, g: usize) -> (stage: ScrapeStage)
        requires
            g <= self@.groups.len(),
        ensures
            stage == leagues_from(g as int, self@.groups.len() as int, self@.divisions.len() as int),
    {
        if g < self.groups.len() {
            ScrapeStage::StoreLeague(g)
        } else if self.divisions.len() > 0 {
            ScrapeStage::ReadFixtures(0)
        } else {
            ScrapeStage::Done
        }
    }

    /// Reports that what the step at hand asked to store was stored.
    pub fn stored(&mut self)
        ensures
            final(self)@ == after_stored(old(self)@),
    {
        proof {
            use_type_invariant(&*self);
        }
        match self.stage {
            ScrapeStage::StoreVenue(j) => {
                if self.counts.venues_upserted() < usize::MAX {
                    self.counts.add_venue();
                }
                let n = self.venue_keys.len();
                if j + 1 < n {
                    self.stage = ScrapeStage::ReadVenue(j + 1);
                } else {
                    self.stage = self.leagues_stage(0);
                }
            },
            ScrapeStage::StoreLeague(g) => {
                let ds = division_upserts(&self.groups[g]);
                proof {
                    assert(division_views(ds@) =~= divisions_of_group(self.groups@[g as int]));
                }
                if self.counts.leagues_upserted() < usize::MAX {
                    self.counts.add_league();
                }
                let has_divisions = ds.len() > 0;
                self.group_divisions = ds;
                if has_divisions {
                    self.stage = ScrapeStage::StoreDivision(g, 0);
                } else {
                    let n = self.groups.len();
                    assert(g + 1 <= n);
                    self.stage = self.leagues_stage(g + 1);
                }
            },
            ScrapeStage::StoreDivision(g, d) => {
                let division = self.group_divisions[d].duplicate();
                let mut divisions: Vec<DivisionUpsert> = Vec::new();
                std::mem::swap(&mut divisions, &mut self.divisions);
                let ghost before = divisions@;
                divisions.push(division);
                proof {
                    assert(division_views(divisions@) =~= division_views(before).push(
                        division_view(division),
                    ));
                }
                self.divisions = divisions;
                if self.counts.divisions_upserted() < usize::MAX {
                    self.counts.add_division();
                }
                let nd = self.group_divisions.len();
                if d + 1 < nd {
                    self.stage = ScrapeStage::StoreDivision(g, d + 1);
                } else {
                    let n = self.groups.len();
                    assert(g + 1 <= n);
                    self.stage = self.leagues_stage(g + 1);
                }
            },
            ScrapeStage::StoreFixture(k, m) => {
                if m < self.pending.len() {
                    if self.counts.teams_upserted() <= usize::MAX - 2 {
                        self.counts.add_fixture();
                    }
                    self.stage = ScrapeStage::StoreFixture(k, m + 1);
                }
            },
            _ => {},
        }
    }

    /// Hands over the league group read from a league group's page.
    pub fn league_group_read(&mut self, group: LeagueGroupData)
        ensures
            after_league_group(old(self)@, group, final(self)@),
    {
        proof {
            use_type_invariant(&*self);
        }
        match self.stage {
            ScrapeStage::ReadLeagueGroup(i) => {
                let mut groups: Vec<LeagueGroupData> = Vec::new();
                std::mem::swap(&mut groups, &mut self.groups);
                groups.push(group);
                self.groups = groups;
                let n = self.group_paths.len();
                if i + 1 < n {
                    self.stage = ScrapeStage::ReadLeagueGroup(i + 1);
                } else {
                    let keys = distinct_venue_keys(self.groups.as_slice());
                    proof {
                        assert(texts(keys@) =~= keys@.map_values(|k: String| k@));
                    }
                    let has_venues = keys.len() > 0;
                    self.venue_keys = keys;
                    if has_venues {
                        self.stage = ScrapeStage::ReadVenue(0);
                    } else {
                        self.stage = self.leagues_stage(0);
                    }
                }
            },
            _ => {},
        }
    }
}

} // verus!
