//! Requests to the calendar host: which ones become calendar feeds, and which team a feed's
//! file name stands for.

use vstd::prelude::*;
use crate::text::{
    chars_equal, chars_of, parse_i32, parse_i32_spec, push_all, push_str, slice_chars,
    starts_with, string_from,
};

verus! {

/// The host that serves calendar feeds.
pub open spec fn calendar_subdomain() -> Seq<char> {
    "calendar.footical.club"@
}

/// Where requests to the calendar host that are not feeds are sent.
pub open spec fn main_site_url() -> Seq<char> {
    "https://footical.club"@
}

/// Where requests to the calendar host that are not feeds are sent.
pub fn main_site() -> (url: &'static str)
    ensures
        url@ == main_site_url(),
{
    "https://footical.club"
}

/// The host named by a `Host` header: the text before its first `:`.
pub open spec fn host_name(header: Seq<char>) -> Seq<char> {
    match crate::text::first_occurrence(header, seq![':']) {
        Some(i) => header.take(i as int),
        None => header,
    }
}

/// What becomes of a request on its way in.
pub enum CalendarRoute {
    /// Handled as it is.
    PassThrough,
    /// Sent to the main site.
    RedirectToMainSite,
    /// Handled as the feed request with this path and query.
    ServeFeed(String),
}

/// The feed path of a request to the calendar host for `path`, with its query if it has one.
pub open spec fn feed_path_text(path: Seq<char>, query: Option<Seq<char>>) -> Seq<char> {
    match query {
        Some(q) => "/ical"@ + path + "?"@ + q,
        None => "/ical"@ + path,
    }
}

/// The route of a request: requests to other hosts, and feed requests already, pass; on the
/// calendar host a path ending in `.ics` becomes the matching feed request, and any other
/// path is sent to the main site.
pub open spec fn route_of(host: Option<Seq<char>>, path: Seq<char>, query: Option<Seq<char>>) -> (
    int,
    Seq<char>,
) {
    let name = match host {
        Some(h) => host_name(h),
        None => Seq::empty(),
    };
    if name != calendar_subdomain() {
        (0, Seq::empty())
    } else if "/ical/"@.is_prefix_of(path) {
        (0, Seq::empty())
    } else if !".ics"@.is_suffix_of(path) {
        (1, Seq::empty())
    } else {
        (2, feed_path_text(path, query))
    }
}

/// The route as (0 pass, 1 redirect, 2 feed) with the feed path.
pub open spec fn route_view(route: CalendarRoute) -> (int, Seq<char>) {
    match route {
        CalendarRoute::PassThrough => (0, Seq::empty()),
        CalendarRoute::RedirectToMainSite => (1, Seq::empty()),
        CalendarRoute::ServeFeed(p) => (2, p@),
    }
}

fn ends_with(s: &Vec<char>, suffix: &Vec<char>) -> (b: bool)
    ensures
        b == suffix@.is_suffix_of(s@),
{
    if suffix.len() > s.len() {
        return false;
    }
    let tail = slice_chars(s, s.len() - suffix.len(), s.len());
    let same = chars_equal(&tail, suffix);
    proof {
        assert(tail@ =~= s@.subrange(s@.len() - suffix@.len(), s@.len() as int));
    }
    same
}

fn host_name_chars(header: &Vec<char>) -> (name: Vec<char>)
    ensures
        name@ == host_name(header@),
{
    let colon = chars_of(":");
    proof {
        reveal_strlit(":");
    }
    let mut i: usize = 0;
    while i < header.len()
        invariant
            i <= header@.len(),
            colon@ == seq![':'],
            forall|k: int| 0 <= k < i ==> header@[k] != ':',
        decreases header@.len() - i,
    {
        if header[i] == ':' {
            proof {
                assert forall|k: int| 0 <= k < i implies !#[trigger] crate::text::occurs_at(
                    header@,
                    seq![':'],
                    k,
                ) by {
                    if crate::text::occurs_at(header@, seq![':'], k) {
                        assert(header@.subrange(k, k + 1)[0] == header@[k]);
                    }
                }
                assert(header@.subrange(i as int, i + 1) =~= seq![':']);
                crate::text::lemma_first_occurrence_unique(header@, seq![':'], i as int);
            }
            return slice_chars(header, 0, i);
        }
        i = i + 1;
    }
    proof {
        assert forall|k: int| !#[trigger] crate::text::occurs_at(header@, seq![':'], k) by {
            if crate::text::occurs_at(header@, seq![':'], k) {
                assert(header@.subrange(k, k + 1)[0] == header@[k]);
            }
        }
        crate::text::lemma_no_occurrence(header@, seq![':']);
    }
    slice_chars(header, 0, header.len())
}

/// Routes a request by its `Host` header, its path and its query.
pub fn route_calendar_request(host: Option<&str>, path: &str, query: Option<&str>) -> (route:
    CalendarRoute)
    ensures
        route_view(route) == route_of(
            match host {
                Some(h) => Some(h@),
                None => None,
            },
            path@,
            match query {
                Some(q) => Some(q@),
                None => None,
            },
        ),
{
    let name = match host {
        Some(h) => host_name_chars(&chars_of(h)),
        None => Vec::new(),
    };
    if !chars_equal(&name, &chars_of("calendar.footical.club")) {
        return CalendarRoute::PassThrough;
    }
    let path_chars = chars_of(path);
    if starts_with(&path_chars, &chars_of("/ical/")) {
        return CalendarRoute::PassThrough;
    }
    if !ends_with(&path_chars, &chars_of(".ics")) {
        return CalendarRoute::RedirectToMainSite;
    }
    let mut feed: Vec<char> = Vec::new();
    push_str(&mut feed, "/ical");
    push_all(&mut feed, &path_chars);
    match query {
        Some(q) => {
            push_str(&mut feed, "?");
            push_str(&mut feed, q);
        },
        None => {},
    }
    CalendarRoute::ServeFeed(string_from(&feed))
}

/// The team whose feed a file name asks for: the name must be a team id followed by `.ics`.
pub open spec fn feed_team_of(filename: Seq<char>) -> Option<i32> {
    if ".ics"@.is_suffix_of(filename) {
        parse_i32_spec(filename.take(filename.len() - 4))
    } else {
        None
    }
}

/// The team whose feed a file name asks for.
pub fn feed_team_id(filename: &str) -> (team_id: Option<i32>)
    ensures
        team_id == feed_team_of(filename@),
{
    let chars = chars_of(filename);
    let suffix = chars_of(".ics");
    proof {
        reveal_strlit(".ics");
    }
    if !ends_with(&chars, &suffix) {
        return None;
    }
    let stem = slice_chars(&chars, 0, chars.len() - 4);
    assert(stem@ =~= chars@.take(chars@.len() - 4));
    parse_i32(&stem)
}

/// A feed request for a team's file finds that team: the calendar link a team is given leads
/// to the team's own feed.
pub proof fn feed_link_names_its_team(team_id: i32)
    ensures
        feed_team_of(crate::text::signed_decimal(team_id as int) + ".ics"@) == Some(team_id),
{
    reveal_strlit(".ics");
    let digits = crate::text::signed_decimal(team_id as int);
    let name = digits + ".ics"@;
    assert(name.take(name.len() - 4) =~= digits);
    assert(".ics"@.is_suffix_of(name)) by {
        assert(name.subrange(name.len() - 4, name.len() as int) =~= ".ics"@);
    }
    crate::text::lemma_parse_signed_decimal(team_id as int);
}

/// The calendar link a team is given reaches that team's feed: the link names the calendar
/// host and a path; a request to that host for that path is served as the feed request for
/// the same file; and that file names the team.
pub proof fn calendar_link_reaches_team_feed(team_id: i32)
    ensures
        crate::subscribe::calendar_url_text(team_id) == "https://"@ + calendar_subdomain() + (
        "/"@ + crate::text::signed_decimal(team_id as int) + ".ics"@),
        route_of(
            Some(calendar_subdomain()),
            "/"@ + crate::text::signed_decimal(team_id as int) + ".ics"@,
            None,
        ) == (2int, "/ical"@ + "/"@ + crate::text::signed_decimal(team_id as int) + ".ics"@),
        feed_team_of(crate::text::signed_decimal(team_id as int) + ".ics"@) == Some(team_id),
{
    reveal_strlit("calendar.footical.club");
    reveal_strlit("/ical/");
    reveal_strlit(".ics");
    reveal_strlit("/");
    let digits = crate::text::signed_decimal(team_id as int);
    let path = "/"@ + digits + ".ics"@;
    // the host holds no `:`
    let host = calendar_subdomain();
    assert forall|k: int| !#[trigger] crate::text::occurs_at(host, seq![':'], k) by {
        if crate::text::occurs_at(host, seq![':'], k) {
            assert(host.subrange(k, k + 1)[0] == host[k]);
        }
    }
    crate::text::lemma_no_occurrence(host, seq![':']);
    assert(host_name(host) == host);
    // the path is not a feed path already: its second character is a digit or a sign
    crate::text::lemma_decimal(if team_id < 0 { (-team_id) as nat } else { team_id as nat });
    assert(digits.len() >= 1);
    assert(path[1] == digits[0]);
    assert(digits[0] == '-' || crate::text::is_ascii_digit(digits[0]));
    assert(!"/ical/"@.is_prefix_of(path)) by {
        if "/ical/"@.is_prefix_of(path) {
            assert(path[1] == "/ical/"@[1]);
        }
    }
    assert(".ics"@.is_suffix_of(path)) by {
        assert(path.subrange(path.len() - 4, path.len() as int) =~= ".ics"@);
    }
    feed_link_names_its_team(team_id);
}

} // verus!
