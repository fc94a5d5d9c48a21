//! The calendar feed served for a team: one VEVENT per fixture, in the London time zone.

use vstd::prelude::*;
use crate::datetime::{add_minutes, compact_text, moved_by_minutes, push_compact, LocalDateTime};
use crate::folding::{folded, push_folded};
use crate::text::{chars_equal, chars_of, push_all, push_signed_decimal, push_str, signed_decimal, string_from};

verus! {

/// How `escape_ical_text` writes one character: backslash, comma, semicolon and newline
/// are escaped with a backslash (RFC 5545 TEXT values).
pub open spec fn escape_char(c: char) -> Seq<char> {
    if c == '\\' {
        seq!['\\', '\\']
    } else if c == ',' {
        seq!['\\', ',']
    } else if c == ';' {
        seq!['\\', ';']
    } else if c == '\n' {
        seq!['\\', 'n']
    } else {
        seq![c]
    }
}

/// `s` with every character escaped.
pub open spec fn escaped(s: Seq<char>) -> Seq<char>
    decreases s.len(),
{
    if s.len() == 0 {
        Seq::empty()
    } else {
        escaped(s.drop_last()) + escape_char(s.last())
    }
}

/// Appends `text` escaped as an iCalendar TEXT value.
pub fn push_escaped(out: &mut Vec<char>, text: &Vec<char>)
    ensures
        final(out)@ == old(out)@ + escaped(text@),
{
    let ghost start = out@;
    let mut i: usize = 0;
    assert(text@.take(0) =~= Seq::<char>::empty());
    assert(start + Seq::<char>::empty() =~= start);
    while i < text.len()
        invariant
            i <= text.len(),
            out@ == start + escaped(text@.take(i as int)),
        decreases text.len() - i,
    {
        let c = text[i];
        let ghost before = out@;
        if c == '\\' {
            out.push('\\');
            out.push('\\');
        } else if c == ',' {
            out.push('\\');
            out.push(',');
        } else if c == ';' {
            out.push('\\');
            out.push(';');
        } else if c == '\n' {
            out.push('\\');
            out.push('n');
        } else {
            out.push(c);
        }
        proof {
            assert(out@ =~= before + escape_char(c));
            assert(text@.take(i + 1).drop_last() =~= text@.take(i as int));
            assert(text@.take(i + 1).last() == c);
        }
        i = i + 1;
    }
    assert(text@.take(text.len() as int) =~= text@);
}

/// Escapes `text` for an iCalendar TEXT value (std's `str::replace`, four times).
pub fn escape_ical_text(text: &str) -> (escaped_text: String)
    ensures
        escaped_text@ == escaped(text@),
{
    let chars = chars_of(text);
    let mut out: Vec<char> = Vec::new();
    push_escaped(&mut out, &chars);
    assert(out@ =~= escaped(text@));
    string_from(&out)
}

/// Escaped text holds no line break, so an escaped value stays on its content line.
pub proof fn escaped_text_has_no_line_break(s: Seq<char>)
    ensures
        !escaped(s).contains('\n'),
    decreases s.len(),
{
    if s.len() > 0 {
        escaped_text_has_no_line_break(s.drop_last());
        let e = escaped(s.drop_last());
        let c = s.last();
        assert(escaped(s) == e + escape_char(c));
        assert forall|i: int| 0 <= i < escaped(s).len() implies escaped(s)[i] != '\n' by {
            if i < e.len() {
                assert(escaped(s)[i] == e[i]);
            } else {
                assert(escaped(s)[i] == escape_char(c)[i - e.len()]);
            }
        }
    }
}

/// A fixture as the calendar writers read it from the database.
pub struct FixtureRow {
    pub fixture_id: i32,
    pub home_team_id: i32,
    pub away_team_id: i32,
    pub home_team_name: String,
    pub away_team_name: String,
    pub scheduled_at: LocalDateTime,
    pub status: String,
    pub venue_name: Option<String>,
    pub venue_address: Option<String>,
}

/// The view of an optional text.
pub open spec fn text_of(o: Option<String>) -> Option<Seq<char>> {
    match o {
        Some(s) => Some(s@),
        None => None,
    }
}

/// The iCalendar status of a fixture: cancelled and postponed fixtures are `CANCELLED`.
pub open spec fn event_status(status: Seq<char>) -> Seq<char> {
    if status == "cancelled"@ || status == "postponed"@ {
        "CANCELLED"@
    } else {
        "CONFIRMED"@
    }
}

/// The LOCATION line of an event: the venue's address, else its name, else none.
pub open spec fn location_lines(address: Option<Seq<char>>, name: Option<Seq<char>>) -> Seq<char> {
    match address {
        Some(a) => folded("LOCATION:"@ + escaped(a)),
        None => match name {
            Some(n) => folded("LOCATION:"@ + escaped(n)),
            None => Seq::empty(),
        },
    }
}

/// Fixtures last this many minutes in the feed.
pub open spec fn feed_fixture_minutes() -> int {
    35
}

/// When a fixture ends in the feed: 35 minutes after it starts, or at its start where
/// that cannot be represented.
pub open spec fn feed_event_end(start: LocalDateTime) -> LocalDateTime {
    match moved_by_minutes(start, feed_fixture_minutes()) {
        Some(end) => end,
        None => start,
    }
}

/// The team a fixture is against, seen from `team_id`.
pub open spec fn opponent_name(f: FixtureRow, team_id: i32) -> Seq<char> {
    if f.home_team_id == team_id {
        f.away_team_name@
    } else {
        f.home_team_name@
    }
}

/// The VEVENT of one fixture in a team's feed.
pub open spec fn feed_event(f: FixtureRow, team_id: i32, stamp: Seq<char>) -> Seq<char> {
    "BEGIN:VEVENT\r\n"@ + folded(
        "UID:fixture-"@ + signed_decimal(f.fixture_id as int) + "-"@ + signed_decimal(
            team_id as int,
        ) + "@footical.club"@,
    ) + folded("DTSTAMP:"@ + stamp) + folded(
        "DTSTART;TZID=Europe/London:"@ + compact_text(f.scheduled_at),
    ) + folded("DTEND;TZID=Europe/London:"@ + compact_text(feed_event_end(f.scheduled_at)))
        + folded("SUMMARY:Versus "@ + crate::ical::escaped(opponent_name(f, team_id)))
        + location_lines(text_of(f.venue_address), text_of(f.venue_name)) + folded(
        "STATUS:"@ + event_status(f.status@),
    ) + "END:VEVENT\r\n"@
}

/// The events of a feed, in the order of the fixtures.
pub open spec fn feed_events(fixtures: Seq<&FixtureRow>, team_id: i32, stamp: Seq<char>) -> Seq<
    char,
>
    decreases fixtures.len(),
{
    if fixtures.len() == 0 {
        Seq::empty()
    } else {
        feed_events(fixtures.drop_last(), team_id, stamp) + feed_event(
            *fixtures.last(),
            team_id,
            stamp,
        )
    }
}

pub open spec fn feed_preamble() -> Seq<char> {
    "BEGIN:VCALENDAR\r\nVERSION:2.0\r\nPRODID:-//footical.club//Footical//EN\r\nCALSCALE:GREGORIAN\r\nMETHOD:PUBLISH\r\n"@
}

/// The VTIMEZONE of Europe/London: GMT in winter, BST from the last Sunday of March to
/// the last Sunday of October.
pub open spec fn london_time_zone() -> Seq<char> {
    "BEGIN:VTIMEZONE\r\nTZID:Europe/London\r\nBEGIN:STANDARD\r\nTZOFFSETFROM:+0100\r\nTZOFFSETTO:+0000\r\nTZNAME:GMT\r\nDTSTART:19701025T020000\r\nRRULE:FREQ=YEARLY;BYDAY=-1SU;BYMONTH=10\r\nEND:STANDARD\r\nBEGIN:DAYLIGHT\r\nTZOFFSETFROM:+0000\r\nTZOFFSETTO:+0100\r\nTZNAME:BST\r\nDTSTART:19700329T010000\r\nRRULE:FREQ=YEARLY;BYDAY=-1SU;BYMONTH=3\r\nEND:DAYLIGHT\r\nEND:VTIMEZONE\r\n"@
}

/// The whole feed of a team.
pub open spec fn feed_calendar(
    team_name: Seq<char>,
    team_id: i32,
    fixtures: Seq<&FixtureRow>,
    stamp: Seq<char>,
) -> Seq<char> {
    feed_preamble() + folded("X-WR-CALNAME:"@ + team_name + " Fixtures"@) + london_time_zone()
        + feed_events(fixtures, team_id, stamp) + "END:VCALENDAR\r\n"@
}

proof fn lemma_status_line_unfolded(line: Seq<char>)
    requires
        line.len() <= 75,
        forall|i: int| 0 <= i < line.len() ==> (#[trigger] line[i] as u32) < 0x80,
    ensures
        folded(line) == line + seq!['\r', '\n'],
{
    crate::text::lemma_utf8_len_ascii(line);
}

/// A fixture that is cancelled or postponed is a cancelled event of the feed; every other
/// fixture is a confirmed one: its VEVENT ends with the line `STATUS:CANCELLED`, or with
/// `STATUS:CONFIRMED`, just before `END:VEVENT`.
pub proof fn cancelled_fixtures_are_cancelled_events(f: FixtureRow, team_id: i32, stamp: Seq<char>)
    ensures
        (f.status@ == "cancelled"@ || f.status@ == "postponed"@) ==> "STATUS:CANCELLED\r\nEND:VEVENT\r\n"@.is_suffix_of(
            feed_event(f, team_id, stamp),
        ),
        !(f.status@ == "cancelled"@ || f.status@ == "postponed"@) ==> "STATUS:CONFIRMED\r\nEND:VEVENT\r\n"@.is_suffix_of(
            feed_event(f, team_id, stamp),
        ),
{
    reveal_strlit("STATUS:");
    reveal_strlit("CANCELLED");
    reveal_strlit("CONFIRMED");
    reveal_strlit("END:VEVENT\r\n");
    reveal_strlit("STATUS:CANCELLED\r\nEND:VEVENT\r\n");
    reveal_strlit("STATUS:CONFIRMED\r\nEND:VEVENT\r\n");
    let line = "STATUS:"@ + event_status(f.status@);
    assert(line.len() == 16);
    assert forall|i: int| 0 <= i < line.len() implies (#[trigger] line[i] as u32) < 0x80 by {
        if i < 7 {
            assert(line[i] == "STATUS:"@[i]);
        } else {
            assert(line[i] == event_status(f.status@)[i - 7]);
        }
    }
    lemma_status_line_unfolded(line);
    let event = feed_event(f, team_id, stamp);
    let tail = line + seq!['\r', '\n'] + "END:VEVENT\r\n"@;
    let head = "BEGIN:VEVENT\r\n"@ + folded(
        "UID:fixture-"@ + signed_decimal(f.fixture_id as int) + "-"@ + signed_decimal(
            team_id as int,
        ) + "@footical.club"@,
    ) + folded("DTSTAMP:"@ + stamp) + folded(
        "DTSTART;TZID=Europe/London:"@ + compact_text(f.scheduled_at),
    ) + folded("DTEND;TZID=Europe/London:"@ + compact_text(feed_event_end(f.scheduled_at)))
        + folded("SUMMARY:Versus "@ + crate::ical::escaped(opponent_name(f, team_id)))
        + location_lines(text_of(f.venue_address), text_of(f.venue_name));
    assert(event =~= head + tail);
    assert(tail.len() == 30);
    assert(event.subrange(event.len() - 30, event.len() as int) =~= tail);
    if f.status@ == "cancelled"@ || f.status@ == "postponed"@ {
        assert(tail =~= "STATUS:CANCELLED\r\nEND:VEVENT\r\n"@);
    } else {
        assert(tail =~= "STATUS:CONFIRMED\r\nEND:VEVENT\r\n"@);
    }
}

pub(crate) fn push_folded_line(out: &mut Vec<char>, line: &Vec<char>)
    ensures
        final(out)@ == old(out)@ + folded(line@),
{
    push_folded(out, line);
}

fn text_is(value: &String, literal: &str) -> (same: bool)
    ensures
        same == (value@ == literal@),
{
    let a = chars_of(value.as_str());
    let b = chars_of(literal);
    chars_equal(&a, &b)
}

pub(crate) fn push_uid_line(out: &mut Vec<char>, fixture_id: i32, team_id: i32)
    ensures
        final(out)@ == old(out)@ + folded(
            "UID:fixture-"@ + signed_decimal(fixture_id as int) + "-"@ + signed_decimal(
                team_id as int,
            ) + "@footical.club"@,
        ),
{
    let mut uid: Vec<char> = Vec::new();
    push_str(&mut uid, "UID:fixture-");
    push_signed_decimal(&mut uid, fixture_id as i64);
    push_str(&mut uid, "-");
    push_signed_decimal(&mut uid, team_id as i64);
    push_str(&mut uid, "@footical.club");
    push_folded_line(out, &uid);
}

pub(crate) fn push_stamp_line(out: &mut Vec<char>, stamp: &Vec<char>)
    ensures
        final(out)@ == old(out)@ + folded("DTSTAMP:"@ + stamp@),
{
    let mut line: Vec<char> = Vec::new();
    push_str(&mut line, "DTSTAMP:");
    push_all(&mut line, stamp);
    push_folded_line(out, &line);
}

fn push_start_line(out: &mut Vec<char>, at: &LocalDateTime)
    ensures
        final(out)@ == old(out)@ + folded("DTSTART;TZID=Europe/London:"@ + compact_text(*at)),
{
    let mut line: Vec<char> = Vec::new();
    push_str(&mut line, "DTSTART;TZID=Europe/London:");
    push_compact(&mut line, at);
    push_folded_line(out, &line);
}

fn push_end_line(out: &mut Vec<char>, start: &LocalDateTime)
    ensures
        final(out)@ == old(out)@ + folded(
            "DTEND;TZID=Europe/London:"@ + compact_text(feed_event_end(*start)),
        ),
{
    let end = match add_minutes(start, 35) {
        Some(e) => e,
        None => *start,
    };
    let mut line: Vec<char> = Vec::new();
    push_str(&mut line, "DTEND;TZID=Europe/London:");
    push_compact(&mut line, &end);
    push_folded_line(out, &line);
}

fn push_summary_line(out: &mut Vec<char>, f: &FixtureRow, team_id: i32)
    ensures
        final(out)@ == old(out)@ + folded("SUMMARY:Versus "@ + escaped(opponent_name(*f, team_id))),
{
    let mut line: Vec<char> = Vec::new();
    push_str(&mut line, "SUMMARY:Versus ");
    let opponent = if f.home_team_id == team_id {
        chars_of(f.away_team_name.as_str())
    } else {
        chars_of(f.home_team_name.as_str())
    };
    push_escaped(&mut line, &opponent);
    push_folded_line(out, &line);
}

pub(crate) fn push_location_line(out: &mut Vec<char>, f: &FixtureRow)
    ensures
        final(out)@ == old(out)@ + location_lines(text_of(f.venue_address), text_of(f.venue_name)),
{
    match &f.venue_address {
        Some(address) => {
            let mut line: Vec<char> = Vec::new();
            push_str(&mut line, "LOCATION:");
            push_escaped(&mut line, &chars_of(address.as_str()));
            push_folded_line(out, &line);
        },
        None => match &f.venue_name {
            Some(name) => {
                let mut line: Vec<char> = Vec::new();
                push_str(&mut line, "LOCATION:");
                push_escaped(&mut line, &chars_of(name.as_str()));
                push_folded_line(out, &line);
            },
            None => {
                assert(out@ =~= old(out)@ + Seq::<char>::empty());
            },
        },
    }
}

pub(crate) fn push_status_line(out: &mut Vec<char>, status_text: &String)
    ensures
        final(out)@ == old(out)@ + folded("STATUS:"@ + event_status(status_text@)),
{
    let cancelled = text_is(status_text, "cancelled") || text_is(status_text, "postponed");
    let mut line: Vec<char> = Vec::new();
    push_str(&mut line, "STATUS:");
    if cancelled {
        push_str(&mut line, "CANCELLED");
    } else {
        push_str(&mut line, "CONFIRMED");
    }
    push_folded_line(out, &line);
}

fn push_event(out: &mut Vec<char>, f: &FixtureRow, team_id: i32, stamp: &Vec<char>)
    ensures
        final(out)@ == old(out)@ + feed_event(*f, team_id, stamp@),
{
    let ghost start = out@;
    push_str(out, "BEGIN:VEVENT\r\n");
    push_uid_line(out, f.fixture_id, team_id);
    push_stamp_line(out, stamp);
    push_start_line(out, &f.scheduled_at);
    push_end_line(out, &f.scheduled_at);
    push_summary_line(out, f, team_id);
    push_location_line(out, f);
    push_status_line(out, &f.status);
    push_str(out, "END:VEVENT\r\n");
    assert(out@ =~= start + feed_event(*f, team_id, stamp@));
}

/// The iCalendar feed of a team's fixtures.
pub fn build_ical(
    team_name: &str,
    team_id: i32,
    fixtures: &[&FixtureRow],
    generation_timestamp: &str,
) -> (calendar: String)
    ensures
        calendar@ == feed_calendar(team_name@, team_id, fixtures@, generation_timestamp@),
{
    let stamp = chars_of(generation_timestamp);
    let mut out: Vec<char> = Vec::new();
    push_str(
        &mut out,
        "BEGIN:VCALENDAR\r\nVERSION:2.0\r\nPRODID:-//footical.club//Footical//EN\r\nCALSCALE:GREGORIAN\r\nMETHOD:PUBLISH\r\n",
    );
    let mut name_line: Vec<char> = Vec::new();
    push_str(&mut name_line, "X-WR-CALNAME:");
    push_str(&mut name_line, team_name);
    push_str(&mut name_line, " Fixtures");
    push_folded_line(&mut out, &name_line);
    push_str(
        &mut out,
        "BEGIN:VTIMEZONE\r\nTZID:Europe/London\r\nBEGIN:STANDARD\r\nTZOFFSETFROM:+0100\r\nTZOFFSETTO:+0000\r\nTZNAME:GMT\r\nDTSTART:19701025T020000\r\nRRULE:FREQ=YEARLY;BYDAY=-1SU;BYMONTH=10\r\nEND:STANDARD\r\nBEGIN:DAYLIGHT\r\nTZOFFSETFROM:+0000\r\nTZOFFSETTO:+0100\r\nTZNAME:BST\r\nDTSTART:19700329T010000\r\nRRULE:FREQ=YEARLY;BYDAY=-1SU;BYMONTH=3\r\nEND:DAYLIGHT\r\nEND:VTIMEZONE\r\n",
    );
    let ghost head = out@;
    let mut i: usize = 0;
    assert(fixtures@.take(0) =~= Seq::<&FixtureRow>::empty());
    assert(head + Seq::<char>::empty() =~= head);
    while i < fixtures.len()
        invariant
            i <= fixtures.len(),
            out@ == head + feed_events(fixtures@.take(i as int), team_id, stamp@),
        decreases fixtures.len() - i,
    {
        push_event(&mut out, fixtures[i], team_id, &stamp);
        proof {
            let taken = fixtures@.take(i + 1);
            assert(taken.drop_last() =~= fixtures@.take(i as int));
            assert(taken.last() == fixtures@[i as int]);
        }
        i = i + 1;
    }
    assert(fixtures@.take(fixtures.len() as int) =~= fixtures@);
    push_str(&mut out, "END:VCALENDAR\r\n");
    assert(out@ =~= feed_calendar(team_name@, team_id, fixtures@, generation_timestamp@));
    string_from(&out)
}

} // verus!
