//! The static export: league, division and team lists, and one calendar file per team.

use vstd::prelude::*;
use crate::datetime::{add_minutes, compact_text, moved_by_minutes, push_compact, LocalDateTime};
use crate::folding::folded;
use crate::ical::{
    escaped, event_status, location_lines, push_escaped, push_folded_line, push_location_line,
    push_stamp_line, push_status_line, push_uid_line, text_of, FixtureRow,
};
use crate::text::{chars_of, push_signed_decimal, push_str, signed_decimal, string_from};

verus! {

/// A league row of the export.
pub struct LeagueRow {
    pub league_id: i32,
    pub name: String,
}

/// A division row of the export.
pub struct DivisionRow {
    pub division_id: i32,
    pub league_id: i32,
    pub name: String,
}

/// A team row of the export.
pub struct TeamRow {
    pub team_id: i32,
    pub division_id: i32,
    pub name: String,
}

// ----- UTF-8 boundaries -----

pub open spec fn is_continuation_byte(b: u8) -> bool {
    b & 0xC0 == 0x80
}

/// Whether byte index `i` of `bytes` starts a character or ends the text.
pub open spec fn starts_char(bytes: Seq<u8>, i: int) -> bool {
    i == 0 || i == bytes.len() || (0 < i < bytes.len() && !is_continuation_byte(bytes[i]))
}

/// The largest byte index not beyond `max_bytes` (nor the end of `bytes`) that falls on
/// a UTF-8 character boundary.
pub fn utf8_boundary(bytes: &[u8], max_bytes: usize) -> (boundary: usize)
    ensures
        boundary <= max_bytes,
        boundary <= bytes@.len(),
        starts_char(bytes@, boundary as int),
        forall|i: int|
            boundary < i <= max_bytes && i <= bytes@.len() ==> !starts_char(bytes@, i),
{
    let end = if max_bytes < bytes.len() {
        max_bytes
    } else {
        bytes.len()
    };
    let mut boundary = end;
    while boundary > 0 && boundary < bytes.len() && (bytes[boundary] & 0xC0) == 0x80
        invariant
            boundary <= end,
            end <= max_bytes,
            end <= bytes@.len(),
            end == max_bytes || end == bytes@.len(),
            forall|i: int| boundary < i <= end ==> !starts_char(bytes@, i),
        decreases boundary,
    {
        proof {
            let b = bytes@[boundary as int];
            assert(b & 0xC0 == 0x80);
        }
        boundary = boundary - 1;
    }
    proof {
        if boundary > 0 && boundary < bytes@.len() {
            assert(!is_continuation_byte(bytes@[boundary as int]));
        }
    }
    boundary
}

// ----- calendars of the export -----

/// The fixtures that a sequence of references points at.
pub open spec fn values(fixtures: Seq<&FixtureRow>) -> Seq<FixtureRow> {
    fixtures.map_values(|f: &FixtureRow| *f)
}

/// Fixtures last this many minutes in the exported calendars.
pub open spec fn export_fixture_minutes() -> int {
    90
}

/// The VEVENT of one fixture in an exported calendar, where `end` is its end.
pub open spec fn export_event(f: FixtureRow, team_id: i32, stamp: Seq<char>, end: LocalDateTime) -> Seq<
    char,
> {
    "BEGIN:VEVENT\r\n"@ + folded(
        "UID:fixture-"@ + signed_decimal(f.fixture_id as int) + "-"@ + signed_decimal(
            team_id as int,
        ) + "@footical.club"@,
    ) + folded("DTSTAMP:"@ + stamp) + folded("DTSTART:"@ + compact_text(f.scheduled_at))
        + folded("DTEND:"@ + compact_text(end)) + folded(
        "SUMMARY:"@ + escaped(f.home_team_name@) + " vs "@ + escaped(f.away_team_name@),
    ) + location_lines(text_of(f.venue_address), text_of(f.venue_name)) + folded(
        "STATUS:"@ + event_status(f.status@),
    ) + "END:VEVENT\r\n"@
}

/// Whether every fixture can be given its end, 90 minutes after its start.
pub open spec fn all_ends_exist(fixtures: Seq<FixtureRow>) -> bool {
    forall|i: int|
        0 <= i < fixtures.len() ==> (#[trigger] moved_by_minutes(
            fixtures[i].scheduled_at,
            export_fixture_minutes(),
        )) is Some
}

pub open spec fn export_events(fixtures: Seq<FixtureRow>, team_id: i32, stamp: Seq<char>) -> Seq<
    char,
>
    decreases fixtures.len(),
{
    if fixtures.len() == 0 {
        Seq::empty()
    } else {
        let f = fixtures.last();
        export_events(fixtures.drop_last(), team_id, stamp) + export_event(
            f,
            team_id,
            stamp,
            moved_by_minutes(f.scheduled_at, export_fixture_minutes())->0,
        )
    }
}

/// An exported team calendar.
pub open spec fn export_calendar(
    team_name: Seq<char>,
    team_id: i32,
    fixtures: Seq<FixtureRow>,
    stamp: Seq<char>,
) -> Seq<char> {
    "BEGIN:VCALENDAR\r\nVERSION:2.0\r\nPRODID:-//footical.club//Footical//EN\r\nCALSCALE:GREGORIAN\r\nMETHOD:PUBLISH\r\n"@
        + folded("X-WR-CALNAME:"@ + team_name + " Fixtures"@) + export_events(
        fixtures,
        team_id,
        stamp,
    ) + "END:VCALENDAR\r\n"@
}

fn push_export_event(out: &mut Vec<char>, f: &FixtureRow, team_id: i32, stamp: &Vec<char>)
    requires
        moved_by_minutes(f.scheduled_at, export_fixture_minutes()) is Some,
    ensures
        final(out)@ == old(out)@ + export_event(
            *f,
            team_id,
            stamp@,
            moved_by_minutes(f.scheduled_at, export_fixture_minutes())->0,
        ),
{
    let ghost start = out@;
    push_str(out, "BEGIN:VEVENT\r\n");
    push_uid_line(out, f.fixture_id, team_id);
    push_stamp_line(out, stamp);
    let mut dtstart: Vec<char> = Vec::new();
    push_str(&mut dtstart, "DTSTART:");
    push_compact(&mut dtstart, &f.scheduled_at);
    push_folded_line(out, &dtstart);
    let end = match add_minutes(&f.scheduled_at, 90) {
        Some(e) => e,
        None => f.scheduled_at,
    };
    let mut dtend: Vec<char> = Vec::new();
    push_str(&mut dtend, "DTEND:");
    push_compact(&mut dtend, &end);
    push_folded_line(out, &dtend);
    let mut summary: Vec<char> = Vec::new();
    push_str(&mut summary, "SUMMARY:");
    push_escaped(&mut summary, &chars_of(f.home_team_name.as_str()));
    push_str(&mut summary, " vs ");
    push_escaped(&mut summary, &chars_of(f.away_team_name.as_str()));
    push_folded_line(out, &summary);
    push_location_line(out, f);
    push_status_line(out, &f.status);
    push_str(out, "END:VEVENT\r\n");
    assert(out@ =~= start + export_event(*f, team_id, stamp@, end));
}

/// An exported team calendar. Every fixture must be movable by 90 minutes, as the export
/// adds them with chrono's `+`, which panics where the result is out of range.
pub fn build_ical(
    team_name: &str,
    team_id: i32,
    fixtures: &[&FixtureRow],
    generation_timestamp: &str,
) -> (calendar: String)
    requires
        all_ends_exist(values(fixtures@)),
    ensures
        calendar@ == export_calendar(
            team_name@,
            team_id,
            values(fixtures@),
            generation_timestamp@,
        ),
{
    let ghost fs = values(fixtures@);
    let stamp = chars_of(generation_timestamp);
    let mut out: Vec<char> = Vec::new();
    push_str(
        &mut out,
        "BEGIN:VCALENDAR\r\nVERSION:2.0\r\nPRODID:-//footical.club//Footical//EN\r\nCALSCALE:GREGORIAN\r\nMETHOD:PUBLISH\r\n",
    );
    let mut name_line: Vec<char> = Vec::new();
    push_str(&mut name_line, "X-WR-CALNAME:");
    push_str(&mut name_line, team_name);
    push_str(&mut name_line, " Fixtures");
    push_folded_line(&mut out, &name_line);
    let ghost head = out@;
    let mut i: usize = 0;
    assert(fs.take(0) =~= Seq::<FixtureRow>::empty());
    assert(head + Seq::<char>::empty() =~= head);
    while i < fixtures.len()
        invariant
            i <= fixtures@.len(),
            fs == values(fixtures@),
            all_ends_exist(fs),
            out@ == head + export_events(fs.take(i as int), team_id, stamp@),
        decreases fixtures@.len() - i,
    {
        assert(fs[i as int] == *fixtures@[i as int]);
        assert(moved_by_minutes(fs[i as int].scheduled_at, export_fixture_minutes()) is Some);
        push_export_event(&mut out, fixtures[i], team_id, &stamp);
        proof {
            let taken = fs.take(i + 1);
            assert(taken.drop_last() =~= fs.take(i as int));
            assert(taken.last() == fs[i as int]);
        }
        i = i + 1;
    }
    assert(fs.take(fs.len() as int) =~= fs);
    push_str(&mut out, "END:VCALENDAR\r\n");
    assert(out@ =~= export_calendar(team_name@, team_id, fs, generation_timestamp@));
    string_from(&out)
}

/// Whether every fixture can be moved by 90 minutes; the export builds its calendars only then.
pub fn all_fixture_ends_exist(fixtures: &[&FixtureRow]) -> (ok: bool)
    ensures
        ok == all_ends_exist(values(fixtures@)),
{
    assert(values(fixtures@).len() == fixtures@.len());
    let mut i: usize = 0;
    while i < fixtures.len()
        invariant
            i <= fixtures@.len(),
            forall|k: int|
                0 <= k < i ==> (#[trigger] moved_by_minutes(
                    fixtures@[k].scheduled_at,
                    export_fixture_minutes(),
                )) is Some,
        decreases fixtures@.len() - i,
    {
        if add_minutes(&fixtures[i].scheduled_at, 90).is_none() {
            assert(values(fixtures@)[i as int] == *fixtures@[i as int]);
            return false;
        }
        i = i + 1;
    }
    assert forall|k: int| 0 <= k < values(fixtures@).len() implies (#[trigger] moved_by_minutes(
        values(fixtures@)[k].scheduled_at,
        export_fixture_minutes(),
    )) is Some by {
        assert(values(fixtures@)[k] == *fixtures@[k]);
    }
    true
}

/// The fixtures of a team's calendar: each fixture once for its home team and once for its
/// away team, in the order given.
pub open spec fn team_fixtures(team_id: i32, fixtures: Seq<FixtureRow>) -> Seq<FixtureRow>
    decreases fixtures.len(),
{
    if fixtures.len() == 0 {
        Seq::empty()
    } else {
        let f = fixtures.last();
        let home: Seq<FixtureRow> = if f.home_team_id == team_id {
            seq![f]
        } else {
            Seq::empty()
        };
        let away: Seq<FixtureRow> = if f.away_team_id == team_id {
            seq![f]
        } else {
            Seq::empty()
        };
        team_fixtures(team_id, fixtures.drop_last()) + home + away
    }
}

/// A team's calendar holds the fixtures the team plays in and no others.
pub proof fn calendar_holds_the_teams_fixtures(team_id: i32, fixtures: Seq<FixtureRow>)
    ensures
        forall|k: int|
            0 <= k < team_fixtures(team_id, fixtures).len() ==> (#[trigger] team_fixtures(
                team_id,
                fixtures,
            )[k]).home_team_id == team_id || team_fixtures(team_id, fixtures)[k].away_team_id
                == team_id,
        forall|i: int|
            0 <= i < fixtures.len() && (fixtures[i].home_team_id == team_id
                || fixtures[i].away_team_id == team_id) ==> team_fixtures(team_id, fixtures).contains(
                #[trigger] fixtures[i],
            ),
    decreases fixtures.len(),
{
    if fixtures.len() > 0 {
        let rest = fixtures.drop_last();
        let f = fixtures.last();
        calendar_holds_the_teams_fixtures(team_id, rest);
        let before = team_fixtures(team_id, rest);
        let home: Seq<FixtureRow> = if f.home_team_id == team_id {
            seq![f]
        } else {
            Seq::empty()
        };
        let away: Seq<FixtureRow> = if f.away_team_id == team_id {
            seq![f]
        } else {
            Seq::empty()
        };
        let all = team_fixtures(team_id, fixtures);
        assert(all == before + home + away);
        assert forall|k: int| 0 <= k < all.len() implies (#[trigger] all[k]).home_team_id == team_id
            || all[k].away_team_id == team_id by {
            if k < before.len() {
                assert(all[k] == before[k]);
            } else if k < before.len() + home.len() {
                assert(all[k] == home[k - before.len()]);
            } else {
                assert(all[k] == away[k - before.len() - home.len()]);
            }
        }
        assert forall|i: int|
            0 <= i < fixtures.len() && (fixtures[i].home_team_id == team_id
                || fixtures[i].away_team_id == team_id) implies all.contains(#[trigger] fixtures[i]) by {
            if i < rest.len() {
                assert(rest[i] == fixtures[i]);
                assert(before.contains(rest[i]));
                let j = choose|j: int| 0 <= j < before.len() && before[j] == rest[i];
                assert(all[j] == before[j]);
            } else {
                assert(fixtures[i] == f);
                if f.home_team_id == team_id {
                    assert(all[before.len() as int] == f);
                } else {
                    assert(all[(before.len() + home.len()) as int] == f);
                }
            }
        }
    }
}

/// The fixtures that the export lists in a team's calendar (a fixture of a team against
/// itself is listed twice, as the export's grouping does).
pub fn fixtures_for_team<'a>(team_id: i32, fixtures: &'a [FixtureRow]) -> (listed: Vec<
    &'a FixtureRow,
>)
    ensures
        values(listed@) == team_fixtures(team_id, fixtures@),
{
    let mut listed: Vec<&FixtureRow> = Vec::new();
    let mut i: usize = 0;
    assert(fixtures@.take(0) =~= Seq::<FixtureRow>::empty());
    assert(values(listed@) =~= Seq::<FixtureRow>::empty());
    while i < fixtures.len()
        invariant
            i <= fixtures@.len(),
            values(listed@) == team_fixtures(
                team_id,
                fixtures@.take(i as int),
            ),
        decreases fixtures@.len() - i,
    {
        let ghost before = values(listed@);
        let f = &fixtures[i];
        if f.home_team_id == team_id {
            listed.push(f);
        }
        if f.away_team_id == team_id {
            listed.push(f);
        }
        proof {
            let taken = fixtures@.take(i + 1);
            assert(taken.drop_last() =~= fixtures@.take(i as int));
            assert(taken.last() == fixtures@[i as int]);
            let home: Seq<FixtureRow> = if f.home_team_id == team_id {
                seq![*f]
            } else {
                Seq::empty()
            };
            let away: Seq<FixtureRow> = if f.away_team_id == team_id {
                seq![*f]
            } else {
                Seq::empty()
            };
            assert(values(listed@) =~= before + home + away);
        }
        i = i + 1;
    }
    assert(fixtures@.take(fixtures@.len() as int) =~= fixtures@);
    listed
}

/// The name of a team's calendar file: its id and `.ics`.
pub open spec fn calendar_file_name_text(team_id: i32) -> Seq<char> {
    signed_decimal(team_id as int) + ".ics"@
}

pub fn calendar_file_name(team_id: i32) -> (name: String)
    ensures
        name@ == calendar_file_name_text(team_id),
{
    let mut out: Vec<char> = Vec::new();
    push_signed_decimal(&mut out, team_id as i64);
    push_str(&mut out, ".ics");
    string_from(&out)
}


/// A file of the export: its name and its content.
pub struct ExportFile {
    pub file_name: String,
    pub content: String,
}

/// Whether every team's calendar can be built.
pub open spec fn all_team_ends_exist(teams: Seq<TeamRow>, fixtures: Seq<FixtureRow>) -> bool {
    forall|i: int|
        0 <= i < teams.len() ==> all_ends_exist(
            #[trigger] team_fixtures(teams[i].team_id, fixtures),
        )
}

/// The calendar files of the export, one per team in the order given, each named by its
/// team's id; `None` where some fixture of a listed team cannot be given its end (the
/// export panics there).
pub fn team_calendars(teams: &[TeamRow], fixtures: &[FixtureRow], generation_timestamp: &str) -> (files:
    Option<Vec<ExportFile>>)
    ensures
        files is None <==> !all_team_ends_exist(teams@, fixtures@),
        files matches Some(fs) ==> fs@.len() == teams@.len() && forall|i: int|
            0 <= i < teams@.len() ==> (#[trigger] fs@[i]).file_name@ == calendar_file_name_text(
                teams@[i].team_id,
            ) && fs@[i].content@ == export_calendar(
                teams@[i].name@,
                teams@[i].team_id,
                team_fixtures(teams@[i].team_id, fixtures@),
                generation_timestamp@,
            ),
{
    let mut files: Vec<ExportFile> = Vec::new();
    let mut i: usize = 0;
    while i < teams.len()
        invariant
            i <= teams@.len(),
            files@.len() == i,
            forall|k: int| 0 <= k < i ==> all_ends_exist(
                #[trigger] team_fixtures(teams@[k].team_id, fixtures@),
            ),
            forall|k: int|
                0 <= k < i ==> (#[trigger] files@[k]).file_name@ == calendar_file_name_text(
                    teams@[k].team_id,
                ) && files@[k].content@ == export_calendar(
                    teams@[k].name@,
                    teams@[k].team_id,
                    team_fixtures(teams@[k].team_id, fixtures@),
                    generation_timestamp@,
                ),
        decreases teams@.len() - i,
    {
        let team = &teams[i];
        let listed = fixtures_for_team(team.team_id, fixtures);
        if !all_fixture_ends_exist(listed.as_slice()) {
            return None;
        }
        let content = build_ical(team.name.as_str(), team.team_id, listed.as_slice(), generation_timestamp);
        let file_name = calendar_file_name(team.team_id);
        files.push(ExportFile { file_name, content });
        i = i + 1;
    }
    Some(files)
}

} // verus!
