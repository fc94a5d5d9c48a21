//! Reading the Football Mundial pages: the league groups a search page lists, a league
//! group's leagues and schedule, a venue, and a league's fixtures.

use vstd::prelude::*;
use crate::html::{
    css_select, regex_captures, regex_first_match, select_elements, selected_view, Selected,
};
use crate::html::{
    css_select_groups, group_view, groups_view, link_view, regex_accepts, row_view, select_groups,
    GroupElement, LinkElement, RowElement,
};
use crate::text::{
    after_last, after_last_char, chars_equal, chars_of, is_ascii_digit, join, join_chars, parse_i32,
    parse_i32_spec, slice_chars, split, split_chars, starts_with, string_from, to_uppercase, trim,
    trim_chars, uppercase, views, words, words_of, push_all, push_str,
};

verus! {

/// Why a page could not be read: a CSS selector or a regular expression was refused.
#[derive(Debug, Clone, Copy, PartialEq, Eq)]
pub enum ParseError {
    Selector,
    Pattern,
}

pub struct LeagueGroupData {
    pub league_group_name: String,
    pub league_group_id: String,
    pub league_endpoints: Vec<LeagueEndpoint>,
    pub venue_source_key: Option<String>,
    pub number_of_players: Option<i32>,
    pub day_of_week: Option<i32>,
    pub starts_at: Option<String>,
    pub ends_at: Option<String>,
    /// The game price as the page writes it, with only its digits and points kept.
    pub price_text: Option<String>,
}

pub struct LeagueEndpoint {
    pub league_id: String,
    pub league_name: Option<String>,
}

pub struct VenueData {
    pub name: String,
    pub address: Option<String>,
}

pub struct FixtureData {
    pub fixture_date: String,
    pub mundial_home_team_id: i32,
    pub mundial_home_team_name: String,
    pub mundial_away_team_id: i32,
    pub mundial_away_team_name: String,
}

pub open spec fn text_opt(o: Option<String>) -> Option<Seq<char>> {
    match o {
        Some(s) => Some(s@),
        None => None,
    }
}

// ----- league group paths -----

/// The `value`s of the picked `option` elements that are league group paths, in order.
pub open spec fn league_group_paths(options: Seq<(Seq<char>, Option<Seq<char>>)>) -> Seq<Seq<char>>
    decreases options.len(),
{
    if options.len() == 0 {
        Seq::empty()
    } else {
        let earlier = league_group_paths(options.drop_last());
        match options.last().1 {
            Some(value) => if "/info/leaguegroups/"@.is_prefix_of(value) {
                earlier.push(value)
            } else {
                earlier
            },
            None => earlier,
        }
    }
}

/// The league group paths (`/info/leaguegroups/...`) that a search page offers as options.
pub fn parse_league_group_ids(html: &str) -> (paths: Result<Vec<String>, ParseError>)
    ensures
        match css_select(html@, "option"@, "value"@) {
            None => paths == Err::<Vec<String>, ParseError>(ParseError::Selector),
            Some(options) => paths matches Ok(v) && v@.map_values(|s: String| s@)
                == league_group_paths(options),
        },
{
    let found = match select_elements(html, "option", "value") {
        Some(found) => found,
        None => return Err(ParseError::Selector),
    };
    let ghost options = found@.map_values(|s: Selected| selected_view(s));
    let prefix = chars_of("/info/leaguegroups/");
    let mut paths: Vec<String> = Vec::new();
    let mut i: usize = 0;
    assert(options.take(0) =~= Seq::<(Seq<char>, Option<Seq<char>>)>::empty());
    assert(paths@.map_values(|s: String| s@) =~= Seq::<Seq<char>>::empty());
    while i < found.len()
        invariant
            i <= found@.len(),
            options == found@.map_values(|s: Selected| selected_view(s)),
            prefix@ == "/info/leaguegroups/"@,
            paths@.map_values(|s: String| s@) == league_group_paths(options.take(i as int)),
        decreases found@.len() - i,
    {
        let ghost before = paths@.map_values(|s: String| s@);
        proof {
            let taken = options.take(i + 1);
            assert(taken.drop_last() =~= options.take(i as int));
            assert(taken.last() == selected_view(found@[i as int]));
        }
        match &found[i].attribute {
            Some(value) => {
                let value_chars = chars_of(value.as_str());
                if starts_with(&value_chars, &prefix) {
                    paths.push(string_from(&value_chars));
                    assert(paths@.map_values(|s: String| s@) =~= before.push(value@));
                }
            },
            None => {},
        }
        i = i + 1;
    }
    assert(options.take(found@.len() as int) =~= options);
    Ok(paths)
}

// ----- venues -----

/// The first picked element's text, trimmed and in upper case; empty where none was picked.
pub open spec fn first_text_upper(found: Seq<(Seq<char>, Option<Seq<char>>)>) -> Seq<char> {
    if found.len() > 0 {
        uppercase(trim(found[0].0))
    } else {
        Seq::empty()
    }
}

/// The paragraphs of an address block: the pieces between blank lines that are neither
/// empty nor the `Address` heading.
pub open spec fn address_paragraphs(pieces: Seq<Seq<char>>) -> Seq<Seq<char>>
    decreases pieces.len(),
{
    if pieces.len() == 0 {
        Seq::empty()
    } else {
        let earlier = address_paragraphs(pieces.drop_last());
        if pieces.last().len() > 0 && pieces.last() != "Address"@ {
            earlier.push(pieces.last())
        } else {
            earlier
        }
    }
}

/// The venue address: the paragraphs of the first picked block joined by `, `, in upper case.
pub open spec fn venue_address(found: Seq<(Seq<char>, Option<Seq<char>>)>) -> Option<Seq<char>> {
    if found.len() > 0 {
        Some(uppercase(join(address_paragraphs(split(found[0].0, "\n\n"@)), ", "@)))
    } else {
        None
    }
}

pub open spec fn venue_address_selector() -> Seq<char> {
    "body > div.container_fluid > div.container > div.panel-body > div > div > div > div.col-lg-2.col-md-3.col-sm-3.col-xs-12"@
}

fn first_text_upper_of(found: &Vec<Selected>) -> (name: Vec<char>)
    ensures
        name@ == first_text_upper(found@.map_values(|s: Selected| selected_view(s))),
{
    if found.len() > 0 {
        let text = chars_of(found[0].text.as_str());
        let trimmed = trim_chars(&text);
        to_uppercase(&trimmed)
    } else {
        Vec::new()
    }
}

fn address_paragraphs_of(pieces: &Vec<Vec<char>>) -> (kept: Vec<Vec<char>>)
    ensures
        views(kept@) == address_paragraphs(views(pieces@)),
{
    let heading = chars_of("Address");
    let mut kept: Vec<Vec<char>> = Vec::new();
    let mut i: usize = 0;
    assert(views(pieces@).take(0) =~= Seq::<Seq<char>>::empty());
    assert(views(kept@) =~= Seq::<Seq<char>>::empty());
    while i < pieces.len()
        invariant
            i <= pieces@.len(),
            heading@ == "Address"@,
            views(kept@) == address_paragraphs(views(pieces@).take(i as int)),
        decreases pieces@.len() - i,
    {
        let ghost before = views(kept@);
        proof {
            let taken = views(pieces@).take(i + 1);
            assert(taken.drop_last() =~= views(pieces@).take(i as int));
            assert(taken.last() == pieces@[i as int]@);
        }
        if pieces[i].len() > 0 && !crate::text::chars_equal(&pieces[i], &heading) {
            let piece = slice_chars(&pieces[i], 0, pieces[i].len());
            assert(piece@ =~= pieces@[i as int]@);
            kept.push(piece);
            assert(views(kept@) =~= before.push(piece@));
        }
        i = i + 1;
    }
    assert(views(pieces@).take(pieces@.len() as int) =~= views(pieces@));
    kept
}

/// A venue page: its name (the first `h2`) and its address block, if the page has one.
pub fn parse_venue(html: &str) -> (venue: Result<VenueData, ParseError>)
    ensures
        match (css_select(html@, "h2"@, "id"@), css_select(html@, venue_address_selector(), "id"@)) {
            (Some(headings), Some(blocks)) => venue matches Ok(v) && v.name@ == first_text_upper(
                headings,
            ) && text_opt(v.address) == venue_address(blocks),
            _ => venue == Err::<VenueData, ParseError>(ParseError::Selector),
        },
{
    let headings = match select_elements(html, "h2", "id") {
        Some(found) => found,
        None => return Err(ParseError::Selector),
    };
    let blocks = match select_elements(
        html,
        "body > div.container_fluid > div.container > div.panel-body > div > div > div > div.col-lg-2.col-md-3.col-sm-3.col-xs-12",
        "id",
    ) {
        Some(found) => found,
        None => return Err(ParseError::Selector),
    };
    let name = first_text_upper_of(&headings);
    let ghost block_views = blocks@.map_values(|s: Selected| selected_view(s));
    let address = if blocks.len() > 0 {
        let text = chars_of(blocks[0].text.as_str());
        let separator = chars_of("\n\n");
        proof {
            reveal_strlit("\n\n");
        }
        let pieces = split_chars(&text, &separator);
        let kept = address_paragraphs_of(&pieces);
        let comma = chars_of(", ");
        let joined = join_chars(&kept, &comma);
        let upper = to_uppercase(&joined);
        assert(block_views[0].0 == text@);
        Some(string_from(&upper))
    } else {
        None
    };
    Ok(VenueData { name: string_from(&name), address })
}


// ----- league groups -----

pub open spec fn league_title_pattern() -> Seq<char> {
    r"^(.+?)\s+View Fixtures & Results\s+\[/info/leagues/(\d+)\]"@
}

pub open spec fn day_pattern() -> Seq<char> {
    r"Day:</b>\s*([^<\n]+)"@
}

pub open spec fn times_pattern() -> Seq<char> {
    r"Game Times:</b>\s*([^<\n]+)"@
}

pub open spec fn price_pattern() -> Seq<char> {
    r"Game Price:</b>\s*([\d.,£\s]+)"@
}

pub open spec fn players_pattern() -> Seq<char> {
    r"Number of Players:</b>\s*(\d+)"@
}

/// Group `i` of a first match, where there is a match and the group took part in it.
pub open spec fn group_of(m: Option<Seq<Option<Seq<char>>>>, i: int) -> Option<Seq<char>> {
    match m {
        Some(groups) => if 0 <= i < groups.len() {
            groups[i]
        } else {
            None
        },
        None => None,
    }
}

/// A league endpoint as (league id, league name).
pub open spec fn endpoint_view(e: LeagueEndpoint) -> (Seq<char>, Option<Seq<char>>) {
    (e.league_id@, text_opt(e.league_name))
}

/// The leagues and the venue that the links of a league group page point at: every
/// `/info/leagues/` link adds a league (named later, if at all); the last `/info/venues/`
/// link names the venue.
pub open spec fn scan_links(links: Seq<(Seq<char>, Option<Seq<char>>)>) -> (
    Seq<(Seq<char>, Option<Seq<char>>)>,
    Option<Seq<char>>,
)
    decreases links.len(),
{
    if links.len() == 0 {
        (Seq::empty(), None)
    } else {
        let earlier = scan_links(links.drop_last());
        match links.last().1 {
            Some(href) => if "/info/leagues/"@.is_prefix_of(href) {
                (earlier.0.push((after_last(href, '/'), None)), earlier.1)
            } else if "/info/venues/"@.is_prefix_of(href) {
                (earlier.0, Some(after_last(href, '/')))
            } else {
                earlier
            },
            None => earlier,
        }
    }
}

/// The index of the first endpoint with league id `id`.
pub open spec fn find_endpoint(endpoints: Seq<(Seq<char>, Option<Seq<char>>)>, id: Seq<char>) -> Option<
    nat,
>
    decreases endpoints.len(),
{
    if endpoints.len() == 0 {
        None
    } else if endpoints[0].0 == id {
        Some(0)
    } else {
        match find_endpoint(endpoints.drop_first(), id) {
            Some(k) => Some(k + 1),
            None => None,
        }
    }
}

/// One panel title names a league: the first endpoint with its id gets the name, or a new
/// endpoint is added where none has it. A title that does not match leaves the endpoints.
pub open spec fn name_endpoint(endpoints: Seq<(Seq<char>, Option<Seq<char>>)>, title: Seq<char>) -> Seq<
    (Seq<char>, Option<Seq<char>>),
> {
    let m = regex_first_match(league_title_pattern(), title);
    match (group_of(m, 1), group_of(m, 2)) {
        (Some(raw_name), Some(id)) => {
            let name = uppercase(trim(raw_name));
            match find_endpoint(endpoints, id) {
                Some(k) => endpoints.update(k as int, (endpoints[k as int].0, Some(name))),
                None => endpoints.push((id, Some(name))),
            }
        },
        _ => endpoints,
    }
}

pub open spec fn name_endpoints(
    endpoints: Seq<(Seq<char>, Option<Seq<char>>)>,
    titles: Seq<Seq<char>>,
) -> Seq<(Seq<char>, Option<Seq<char>>)>
    decreases titles.len(),
{
    if titles.len() == 0 {
        endpoints
    } else {
        name_endpoint(name_endpoints(endpoints, titles.drop_last()), titles.last())
    }
}

/// The number of a weekday, Monday being 1.
pub open spec fn day_number(name: Seq<char>) -> Option<i32> {
    if name == "Monday"@ {
        Some(1)
    } else if name == "Tuesday"@ {
        Some(2)
    } else if name == "Wednesday"@ {
        Some(3)
    } else if name == "Thursday"@ {
        Some(4)
    } else if name == "Friday"@ {
        Some(5)
    } else if name == "Saturday"@ {
        Some(6)
    } else if name == "Sunday"@ {
        Some(7)
    } else {
        None
    }
}

/// The digits and points of a price.
pub open spec fn price_chars(s: Seq<char>) -> Seq<char>
    decreases s.len(),
{
    if s.len() == 0 {
        Seq::empty()
    } else {
        let earlier = price_chars(s.drop_last());
        if is_ascii_digit(s.last()) || s.last() == '.' {
            earlier.push(s.last())
        } else {
            earlier
        }
    }
}

pub open spec fn first_captured(pattern: Seq<char>, html: Seq<char>) -> Option<Seq<char>> {
    group_of(regex_first_match(pattern, html), 1)
}

pub open spec fn spec_day_of_week(html: Seq<char>) -> Option<i32> {
    match first_captured(day_pattern(), html) {
        Some(t) => day_number(trim(t)),
        None => None,
    }
}

pub open spec fn spec_starts_at(html: Seq<char>) -> Option<Seq<char>> {
    match first_captured(times_pattern(), html) {
        Some(t) => Some(trim(split(t, "-"@)[0])),
        None => None,
    }
}

pub open spec fn spec_ends_at(html: Seq<char>) -> Option<Seq<char>> {
    match first_captured(times_pattern(), html) {
        Some(t) => if split(t, "-"@).len() > 1 {
            Some(trim(split(t, "-"@)[1]))
        } else {
            None
        },
        None => None,
    }
}

pub open spec fn spec_price_text(html: Seq<char>) -> Option<Seq<char>> {
    match first_captured(price_pattern(), html) {
        Some(t) => Some(price_chars(t)),
        None => None,
    }
}

pub open spec fn spec_number_of_players(html: Seq<char>) -> Option<i32> {
    match first_captured(players_pattern(), html) {
        Some(t) => parse_i32_spec(t),
        None => None,
    }
}

pub open spec fn all_patterns_accepted() -> bool {
    &&& regex_accepts(league_title_pattern())
    &&& regex_accepts(day_pattern())
    &&& regex_accepts(times_pattern())
    &&& regex_accepts(price_pattern())
    &&& regex_accepts(players_pattern())
}

pub open spec fn texts(found: Seq<(Seq<char>, Option<Seq<char>>)>) -> Seq<Seq<char>> {
    found.map_values(|e: (Seq<char>, Option<Seq<char>>)| e.0)
}

/// Whether `d` is what a league group page says, given what its selectors picked.
pub open spec fn league_group_read(
    d: LeagueGroupData,
    html: Seq<char>,
    path: Seq<char>,
    headings: Seq<(Seq<char>, Option<Seq<char>>)>,
    links: Seq<(Seq<char>, Option<Seq<char>>)>,
    titles: Seq<(Seq<char>, Option<Seq<char>>)>,
) -> bool {
    &&& d.league_group_name@ == first_text_upper(headings)
    &&& d.league_group_id@ == after_last(path, '/')
    &&& d.league_endpoints@.map_values(|e: LeagueEndpoint| endpoint_view(e)) == name_endpoints(
        scan_links(links).0,
        texts(titles),
    )
    &&& text_opt(d.venue_source_key) == scan_links(links).1
    &&& d.day_of_week == spec_day_of_week(html)
    &&& text_opt(d.starts_at) == spec_starts_at(html)
    &&& text_opt(d.ends_at) == spec_ends_at(html)
    &&& text_opt(d.price_text) == spec_price_text(html)
    &&& d.number_of_players == spec_number_of_players(html)
}

fn scan_links_of(links: &Vec<Selected>) -> (r: (Vec<LeagueEndpoint>, Option<String>))
    ensures
        (r.0@.map_values(|e: LeagueEndpoint| endpoint_view(e)), text_opt(r.1)) == scan_links(
            links@.map_values(|s: Selected| selected_view(s)),
        ),
{
    let ghost all = links@.map_values(|s: Selected| selected_view(s));
    let leagues_prefix = chars_of("/info/leagues/");
    let venues_prefix = chars_of("/info/venues/");
    let mut endpoints: Vec<LeagueEndpoint> = Vec::new();
    let mut venue: Option<String> = None;
    let mut i: usize = 0;
    assert(all.take(0) =~= Seq::<(Seq<char>, Option<Seq<char>>)>::empty());
    assert(endpoints@.map_values(|e: LeagueEndpoint| endpoint_view(e)) =~= Seq::<
        (Seq<char>, Option<Seq<char>>),
    >::empty());
    while i < links.len()
        invariant
            i <= links@.len(),
            all == links@.map_values(|s: Selected| selected_view(s)),
            leagues_prefix@ == "/info/leagues/"@,
            venues_prefix@ == "/info/venues/"@,
            (endpoints@.map_values(|e: LeagueEndpoint| endpoint_view(e)), text_opt(venue))
                == scan_links(all.take(i as int)),
        decreases links@.len() - i,
    {
        proof {
            let taken = all.take(i + 1);
            assert(taken.drop_last() =~= all.take(i as int));
            assert(taken.last() == selected_view(links@[i as int]));
        }
        let ghost before = endpoints@.map_values(|e: LeagueEndpoint| endpoint_view(e));
        match &links[i].attribute {
            Some(href) => {
                let href_chars = chars_of(href.as_str());
                if starts_with(&href_chars, &leagues_prefix) {
                    let id = after_last_char(&href_chars, '/');
                    endpoints.push(LeagueEndpoint { league_id: string_from(&id), league_name: None });
                    assert(endpoints@.map_values(|e: LeagueEndpoint| endpoint_view(e)) =~= before.push(
                        (after_last(href@, '/'), None),
                    ));
                } else if starts_with(&href_chars, &venues_prefix) {
                    let key = after_last_char(&href_chars, '/');
                    venue = Some(string_from(&key));
                }
            },
            None => {},
        }
        i = i + 1;
    }
    assert(all.take(links@.len() as int) =~= all);
    (endpoints, venue)
}

proof fn lemma_find_endpoint(endpoints: Seq<(Seq<char>, Option<Seq<char>>)>, id: Seq<char>)
    ensures
        find_endpoint(endpoints, id) matches Some(j) ==> j < endpoints.len() && endpoints[j as int].0
            == id,
    decreases endpoints.len(),
{
    if endpoints.len() > 0 && endpoints[0].0 != id {
        lemma_find_endpoint(endpoints.drop_first(), id);
    }
}

fn find_endpoint_index(endpoints: &Vec<LeagueEndpoint>, id: &Vec<char>) -> (k: Option<usize>)
    ensures
        match k {
            Some(i) => find_endpoint(endpoints@.map_values(|e: LeagueEndpoint| endpoint_view(e)), id@)
                == Some(i as nat),
            None => find_endpoint(endpoints@.map_values(|e: LeagueEndpoint| endpoint_view(e)), id@)
                is None,
        },
{
    let ghost all = endpoints@.map_values(|e: LeagueEndpoint| endpoint_view(e));
    let mut i: usize = 0;
    assert(all.skip(0) =~= all);
    while i < endpoints.len()
        invariant
            i <= endpoints@.len(),
            all == endpoints@.map_values(|e: LeagueEndpoint| endpoint_view(e)),
            match find_endpoint(all, id@) {
                Some(j) => j >= i && find_endpoint(all.skip(i as int), id@) == Some((j - i) as nat),
                None => find_endpoint(all.skip(i as int), id@) is None,
            },
        decreases endpoints@.len() - i,
    {
        let candidate = chars_of(endpoints[i].league_id.as_str());
        let ghost rest = all.skip(i as int);
        assert(rest[0] == endpoint_view(endpoints@[i as int]));
        assert(rest.drop_first() =~= all.skip(i + 1));
        if chars_equal(&candidate, id) {
            return Some(i);
        }
        i = i + 1;
    }
    None
}

fn name_endpoints_of(endpoints: &mut Vec<LeagueEndpoint>, titles: &Vec<Selected>) -> (r: Result<(), ParseError>)
    requires
        regex_accepts(league_title_pattern()),
    ensures
        r is Ok,
        final(endpoints)@.map_values(|e: LeagueEndpoint| endpoint_view(e)) == name_endpoints(
            old(endpoints)@.map_values(|e: LeagueEndpoint| endpoint_view(e)),
            texts(titles@.map_values(|s: Selected| selected_view(s))),
        ),
{
    let ghost start = endpoints@.map_values(|e: LeagueEndpoint| endpoint_view(e));
    let ghost all = texts(titles@.map_values(|s: Selected| selected_view(s)));
    let mut i: usize = 0;
    assert(all.take(0) =~= Seq::<Seq<char>>::empty());
    while i < titles.len()
        invariant
            i <= titles@.len(),
            regex_accepts(league_title_pattern()),
            all == texts(titles@.map_values(|s: Selected| selected_view(s))),
            endpoints@.map_values(|e: LeagueEndpoint| endpoint_view(e)) == name_endpoints(
                start,
                all.take(i as int),
            ),
        decreases titles@.len() - i,
    {
        proof {
            let taken = all.take(i + 1);
            assert(taken.drop_last() =~= all.take(i as int));
            assert(taken.last() == titles@[i as int].text@);
        }
        let ghost current = endpoints@.map_values(|e: LeagueEndpoint| endpoint_view(e));
        let found = match regex_captures(
            r"^(.+?)\s+View Fixtures & Results\s+\[/info/leagues/(\d+)\]",
            titles[i].text.as_str(),
        ) {
            Ok(found) => found,
            Err(_) => return Err(ParseError::Pattern),
        };
        match found {
            Some(groups) => {
                let ghost m = Some(groups_view(groups@));
                if groups.len() > 2 {
                    match (&groups[1], &groups[2]) {
                        (Some(raw_name), Some(id)) => {
                            assert(group_of(m, 1) == Some(raw_name@));
                            assert(group_of(m, 2) == Some(id@));
                            let name_chars = to_uppercase(&trim_chars(&chars_of(raw_name.as_str())));
                            let id_chars = chars_of(id.as_str());
                            match find_endpoint_index(endpoints, &id_chars) {
                                Some(k) => {
                                    proof {
                                        lemma_find_endpoint(current, id@);
                                    }
                                    let league_id = endpoints[k].league_id.clone();
                                    endpoints.set(
                                        k,
                                        LeagueEndpoint {
                                            league_id,
                                            league_name: Some(string_from(&name_chars)),
                                        },
                                    );
                                    let ghost title = titles@[i as int].text@;
                                    assert(regex_first_match(league_title_pattern(), title) == m);
                                    assert(find_endpoint(current, id@) == Some(k as nat));
                                    assert(name_endpoint(current, title) == current.update(
                                        k as int,
                                        (current[k as int].0, Some(uppercase(trim(raw_name@)))),
                                    ));
                                    assert(endpoints@.map_values(|e: LeagueEndpoint| endpoint_view(e))
                                        =~= name_endpoint(current, titles@[i as int].text@));
                                },
                                None => {
                                    endpoints.push(
                                        LeagueEndpoint {
                                            league_id: string_from(&id_chars),
                                            league_name: Some(string_from(&name_chars)),
                                        },
                                    );
                                    assert(endpoints@.map_values(|e: LeagueEndpoint| endpoint_view(e))
                                        =~= name_endpoint(current, titles@[i as int].text@));
                                },
                            }
                        },
                        _ => {
                            assert(group_of(m, 1) is None || group_of(m, 2) is None);
                        },
                    }
                } else {
                    assert(group_of(m, 2) is None);
                }
            },
            None => {},
        }
        i = i + 1;
    }
    assert(all.take(titles@.len() as int) =~= all);
    Ok(())
}


/// Group 1 of the first match of `pattern` in `haystack`; an error where the pattern is refused.
fn first_capture_of(pattern: &str, haystack: &str) -> (r: Result<Option<Vec<char>>, ParseError>)
    ensures
        r is Err <==> !regex_accepts(pattern@),
        r matches Err(e) ==> e == ParseError::Pattern,
        r matches Ok(g) ==> match g {
            Some(t) => first_captured(pattern@, haystack@) == Some(t@),
            None => first_captured(pattern@, haystack@) is None,
        },
{
    let found = match regex_captures(pattern, haystack) {
        Ok(found) => found,
        Err(_) => return Err(ParseError::Pattern),
    };
    match found {
        Some(groups) => {
            let ghost m = Some(groups_view(groups@));
            if groups.len() > 1 {
                match &groups[1] {
                    Some(t) => {
                        assert(group_of(m, 1) == Some(t@));
                        Ok(Some(chars_of(t.as_str())))
                    },
                    None => {
                        assert(group_of(m, 1) is None);
                        Ok(None)
                    },
                }
            } else {
                Ok(None)
            }
        },
        None => Ok(None),
    }
}

fn day_number_of(name: &Vec<char>) -> (day: Option<i32>)
    ensures
        day == day_number(name@),
{
    if chars_equal(name, &chars_of("Monday")) {
        Some(1)
    } else if chars_equal(name, &chars_of("Tuesday")) {
        Some(2)
    } else if chars_equal(name, &chars_of("Wednesday")) {
        Some(3)
    } else if chars_equal(name, &chars_of("Thursday")) {
        Some(4)
    } else if chars_equal(name, &chars_of("Friday")) {
        Some(5)
    } else if chars_equal(name, &chars_of("Saturday")) {
        Some(6)
    } else if chars_equal(name, &chars_of("Sunday")) {
        Some(7)
    } else {
        None
    }
}

fn price_chars_of(s: &Vec<char>) -> (kept: Vec<char>)
    ensures
        kept@ == price_chars(s@),
{
    let mut kept: Vec<char> = Vec::new();
    let mut i: usize = 0;
    assert(s@.take(0) =~= Seq::<char>::empty());
    while i < s.len()
        invariant
            i <= s@.len(),
            kept@ == price_chars(s@.take(i as int)),
        decreases s@.len() - i,
    {
        proof {
            let taken = s@.take(i + 1);
            assert(taken.drop_last() =~= s@.take(i as int));
            assert(taken.last() == s@[i as int]);
        }
        let c = s[i];
        if ('0' <= c && c <= '9') || c == '.' {
            kept.push(c);
        }
        i = i + 1;
    }
    assert(s@.take(s@.len() as int) =~= s@);
    kept
}

fn times_of(t: &Vec<char>) -> (r: (Option<String>, Option<String>))
    ensures
        text_opt(r.0) == Some(trim(split(t@, "-"@)[0])),
        text_opt(r.1) == (if split(t@, "-"@).len() > 1 {
            Some(trim(split(t@, "-"@)[1]))
        } else {
            None
        }),
{
    let dash = chars_of("-");
    proof {
        reveal_strlit("-");
    }
    let parts = split_chars(t, &dash);
    proof {
        lemma_split_not_empty(t@, dash@);
    }
    let first = trim_chars(&parts[0]);
    let second = if parts.len() > 1 {
        Some(string_from(&trim_chars(&parts[1])))
    } else {
        None
    };
    (Some(string_from(&first)), second)
}

proof fn lemma_split_not_empty(s: Seq<char>, pat: Seq<char>)
    requires
        pat.len() > 0,
    ensures
        split(s, pat).len() >= 1,
{
    crate::text::lemma_first_occurrence(s, pat);
}

/// A league group page: its name (the first `h1`), its id (the last segment of its path),
/// the leagues and the venue its links point at, the league names its panel titles give,
/// and the day, game times, price and team size its schedule states.
pub fn parse_league_group(html: &str, league_group_path: &str) -> (group: Result<
    LeagueGroupData,
    ParseError,
>)
    ensures
        match (
            css_select(html@, "h1"@, "id"@),
            css_select(html@, "a"@, "href"@),
            css_select(html@, "h4.panel-title"@, "id"@),
        ) {
            (Some(headings), Some(links), Some(titles)) => if all_patterns_accepted() {
                group matches Ok(d) && league_group_read(
                    d,
                    html@,
                    league_group_path@,
                    headings,
                    links,
                    titles,
                )
            } else {
                group == Err::<LeagueGroupData, ParseError>(ParseError::Pattern)
            },
            _ => group == Err::<LeagueGroupData, ParseError>(ParseError::Selector),
        },
{
    let headings = match select_elements(html, "h1", "id") {
        Some(found) => found,
        None => return Err(ParseError::Selector),
    };
    let links = match select_elements(html, "a", "href") {
        Some(found) => found,
        None => return Err(ParseError::Selector),
    };
    let titles = match select_elements(html, "h4.panel-title", "id") {
        Some(found) => found,
        None => return Err(ParseError::Selector),
    };
    let path = chars_of(league_group_path);
    let league_group_id = after_last_char(&path, '/');
    let name = first_text_upper_of(&headings);
    let scanned = scan_links_of(&links);
    let mut endpoints = scanned.0;
    let venue_source_key = scanned.1;
    if regex_captures(r"^(.+?)\s+View Fixtures & Results\s+\[/info/leagues/(\d+)\]", "").is_err() {
        return Err(ParseError::Pattern);
    }
    let named = name_endpoints_of(&mut endpoints, &titles);
    let day = first_capture_of(r"Day:</b>\s*([^<\n]+)", html)?;
    let times = first_capture_of(r"Game Times:</b>\s*([^<\n]+)", html)?;
    let price = first_capture_of(r"Game Price:</b>\s*([\d.,£\s]+)", html)?;
    let players = first_capture_of(r"Number of Players:</b>\s*(\d+)", html)?;
    let day_of_week = match &day {
        Some(t) => day_number_of(&trim_chars(t)),
        None => None,
    };
    let (starts_at, ends_at) = match &times {
        Some(t) => times_of(t),
        None => (None, None),
    };
    let price_text = match &price {
        Some(t) => Some(string_from(&price_chars_of(t))),
        None => None,
    };
    let number_of_players = match &players {
        Some(t) => parse_i32(t),
        None => None,
    };
    Ok(
        LeagueGroupData {
            league_group_name: string_from(&name),
            league_group_id: string_from(&league_group_id),
            league_endpoints: endpoints,
            venue_source_key,
            number_of_players,
            day_of_week,
            starts_at,
            ends_at,
            price_text,
        },
    )
}


// ----- league fixtures -----

pub open spec fn date_pattern() -> Seq<char> {
    r"\d{4}-\d{2}-\d{2}"@
}

pub open spec fn kick_off_pattern() -> Seq<char> {
    r"^\d{2}:\d{2}$"@
}

pub open spec fn team_link_pattern() -> Seq<char> {
    r"/info/teams/(\d+)"@
}

pub open spec fn fixture_patterns_accepted() -> bool {
    &&& regex_accepts(date_pattern())
    &&& regex_accepts(kick_off_pattern())
    &&& regex_accepts(team_link_pattern())
}

/// The first token that is a kick-off time, or `00:00` where none is.
pub open spec fn kick_off(tokens: Seq<Seq<char>>) -> Seq<char>
    decreases tokens.len(),
{
    if tokens.len() == 0 {
        "00:00"@
    } else if regex_first_match(kick_off_pattern(), tokens[0]) is Some {
        tokens[0]
    } else {
        kick_off(tokens.drop_first())
    }
}

/// The teams a row's links point at: (team id, trimmed link text), for every link whose
/// `href` holds `/info/teams/<digits>` with an id that fits an `i32`.
pub open spec fn team_links(links: Seq<(Option<Seq<char>>, Seq<char>)>) -> Seq<(i32, Seq<char>)>
    decreases links.len(),
{
    if links.len() == 0 {
        Seq::empty()
    } else {
        let earlier = team_links(links.drop_last());
        match links.last().0 {
            Some(href) => match first_captured(team_link_pattern(), href) {
                Some(digits) => match parse_i32_spec(digits) {
                    Some(id) => earlier.push((id, trim(links.last().1))),
                    None => earlier,
                },
                None => earlier,
            },
            None => earlier,
        }
    }
}

/// A fixture as (date and time, home id, home name, away id, away name).
pub type FixtureView = (Seq<char>, i32, Seq<char>, i32, Seq<char>);

pub open spec fn fixture_view(f: FixtureData) -> FixtureView {
    (
        f.fixture_date@,
        f.mundial_home_team_id,
        f.mundial_home_team_name@,
        f.mundial_away_team_id,
        f.mundial_away_team_name@,
    )
}

/// The fixture a table row states on `date`: a row with a `v` token and two team links.
pub open spec fn row_fixture(date: Seq<char>, row: (Seq<char>, Seq<(Option<Seq<char>>, Seq<char>)>)) -> Option<
    FixtureView,
> {
    let tokens = words(row.0);
    if !tokens.contains("v"@) {
        None
    } else {
        let teams = team_links(row.1);
        if teams.len() >= 2 {
            Some(
                (
                    date + "T"@ + kick_off(tokens) + ":00"@,
                    teams[0].0,
                    teams[0].1,
                    teams[1].0,
                    teams[1].1,
                ),
            )
        } else {
            None
        }
    }
}

pub open spec fn rows_fixtures(
    date: Seq<char>,
    rows: Seq<(Seq<char>, Seq<(Option<Seq<char>>, Seq<char>)>)>,
) -> Seq<FixtureView>
    decreases rows.len(),
{
    if rows.len() == 0 {
        Seq::empty()
    } else {
        let earlier = rows_fixtures(date, rows.drop_last());
        match row_fixture(date, rows.last()) {
            Some(f) => earlier.push(f),
            None => earlier,
        }
    }
}

/// The date a group's id carries (`YYYY-MM-DD`), if any.
pub open spec fn group_date(id: Option<Seq<char>>) -> Option<Seq<char>> {
    let text = match id {
        Some(t) => t,
        None => Seq::empty(),
    };
    group_of(regex_first_match(date_pattern(), text), 0)
}

pub open spec fn groups_fixtures(
    groups: Seq<(Option<Seq<char>>, Seq<(Seq<char>, Seq<(Option<Seq<char>>, Seq<char>)>)>)>,
) -> Seq<FixtureView>
    decreases groups.len(),
{
    if groups.len() == 0 {
        Seq::empty()
    } else {
        let earlier = groups_fixtures(groups.drop_last());
        match group_date(groups.last().0) {
            Some(date) => earlier + rows_fixtures(date, groups.last().1),
            None => earlier,
        }
    }
}

pub open spec fn fixture_group_selector() -> Seq<char> {
    "#fixtures_accordion_fixtures > div > div:not(.panel-heading)"@
}

fn kick_off_of(tokens: &Vec<Vec<char>>) -> (r: Result<Vec<char>, ParseError>)
    requires
        regex_accepts(kick_off_pattern()),
    ensures
        r matches Ok(t) && t@ == kick_off(views(tokens@)),
{
    let mut i: usize = 0;
    let ghost all = views(tokens@);
    assert(all.skip(0) =~= all);
    while i < tokens.len()
        invariant
            i <= tokens@.len(),
            all == views(tokens@),
            regex_accepts(kick_off_pattern()),
            kick_off(all) == kick_off(all.skip(i as int)),
        decreases tokens@.len() - i,
    {
        let token = string_from(&tokens[i]);
        let found = match regex_captures(r"^\d{2}:\d{2}$", token.as_str()) {
            Ok(found) => found,
            Err(_) => return Err(ParseError::Pattern),
        };
        let ghost rest = all.skip(i as int);
        assert(rest[0] == tokens@[i as int]@);
        if found.is_some() {
            return Ok(slice_chars(&tokens[i], 0, tokens[i].len()));
        }
        assert(rest.drop_first() =~= all.skip(i + 1));
        i = i + 1;
    }
    Ok(chars_of("00:00"))
}

fn has_v_token(tokens: &Vec<Vec<char>>) -> (b: bool)
    ensures
        b == views(tokens@).contains("v"@),
{
    let v = chars_of("v");
    let mut i: usize = 0;
    while i < tokens.len()
        invariant
            i <= tokens@.len(),
            v@ == "v"@,
            forall|k: int| 0 <= k < i ==> views(tokens@)[k] != "v"@,
        decreases tokens@.len() - i,
    {
        if chars_equal(&tokens[i], &v) {
            assert(views(tokens@)[i as int] == "v"@);
            return true;
        }
        i = i + 1;
    }
    false
}

fn team_links_of(links: &Vec<LinkElement>) -> (r: Result<Vec<(i32, Vec<char>)>, ParseError>)
    requires
        regex_accepts(team_link_pattern()),
    ensures
        r matches Ok(teams) && teams@.map_values(|t: (i32, Vec<char>)| (t.0, t.1@)) == team_links(
            links@.map_values(|l: LinkElement| link_view(l)),
        ),
{
    let ghost all = links@.map_values(|l: LinkElement| link_view(l));
    let mut teams: Vec<(i32, Vec<char>)> = Vec::new();
    let mut i: usize = 0;
    assert(all.take(0) =~= Seq::<(Option<Seq<char>>, Seq<char>)>::empty());
    assert(teams@.map_values(|t: (i32, Vec<char>)| (t.0, t.1@)) =~= Seq::<(i32, Seq<char>)>::empty());
    while i < links.len()
        invariant
            i <= links@.len(),
            all == links@.map_values(|l: LinkElement| link_view(l)),
            regex_accepts(team_link_pattern()),
            teams@.map_values(|t: (i32, Vec<char>)| (t.0, t.1@)) == team_links(all.take(i as int)),
        decreases links@.len() - i,
    {
        proof {
            let taken = all.take(i + 1);
            assert(taken.drop_last() =~= all.take(i as int));
            assert(taken.last() == link_view(links@[i as int]));
        }
        let ghost before = teams@.map_values(|t: (i32, Vec<char>)| (t.0, t.1@));
        match &links[i].href {
            Some(href) => {
                let digits = first_capture_of(r"/info/teams/(\d+)", href.as_str())?;
                match digits {
                    Some(d) => match parse_i32(&d) {
                        Some(id) => {
                            let name = trim_chars(&chars_of(links[i].text.as_str()));
                            teams.push((id, name));
                            assert(teams@.map_values(|t: (i32, Vec<char>)| (t.0, t.1@)) =~= before.push(
                                (id, name@),
                            ));
                        },
                        None => {},
                    },
                    None => {},
                }
            },
            None => {},
        }
        i = i + 1;
    }
    assert(all.take(links@.len() as int) =~= all);
    Ok(teams)
}

fn row_fixture_of(date: &Vec<char>, row: &RowElement) -> (r: Result<Option<FixtureData>, ParseError>)
    requires
        fixture_patterns_accepted(),
    ensures
        r matches Ok(f) && match f {
            Some(data) => row_fixture(date@, row_view(*row)) == Some(fixture_view(data)),
            None => row_fixture(date@, row_view(*row)) is None,
        },
{
    let tokens = words_of(&chars_of(row.text.as_str()));
    if !has_v_token(&tokens) {
        return Ok(None);
    }
    let time = kick_off_of(&tokens)?;
    let teams = team_links_of(&row.links)?;
    if teams.len() >= 2 {
        let mut stamp: Vec<char> = Vec::new();
        push_all(&mut stamp, date);
        push_str(&mut stamp, "T");
        push_all(&mut stamp, &time);
        push_str(&mut stamp, ":00");
        let home = &teams[0];
        let away = &teams[1];
        Ok(
            Some(
                FixtureData {
                    fixture_date: string_from(&stamp),
                    mundial_home_team_id: home.0,
                    mundial_home_team_name: string_from(&home.1),
                    mundial_away_team_id: away.0,
                    mundial_away_team_name: string_from(&away.1),
                },
            ),
        )
    } else {
        Ok(None)
    }
}

fn group_fixtures_of(group: &GroupElement, fixtures: &mut Vec<FixtureData>) -> (r: Result<(), ParseError>)
    requires
        fixture_patterns_accepted(),
    ensures
        r is Ok,
        final(fixtures)@.map_values(|f: FixtureData| fixture_view(f)) == old(fixtures)@.map_values(
            |f: FixtureData| fixture_view(f),
        ) + match group_date(group_view(*group).0) {
            Some(date) => rows_fixtures(date, group_view(*group).1),
            None => Seq::empty(),
        },
{
    let ghost start = fixtures@.map_values(|f: FixtureData| fixture_view(f));
    let id: Vec<char> = match &group.id {
        Some(id) => chars_of(id.as_str()),
        None => Vec::new(),
    };
    let found = match regex_captures(r"\d{4}-\d{2}-\d{2}", string_from(&id).as_str()) {
        Ok(found) => found,
        Err(_) => return Err(ParseError::Pattern),
    };
    let date: Vec<char> = match found {
        Some(groups) => {
            let ghost m = Some(groups_view(groups@));
            if groups.len() > 0 {
                match &groups[0] {
                    Some(d) => {
                        assert(group_of(m, 0) == Some(d@));
                        chars_of(d.as_str())
                    },
                    None => {
                        assert(group_of(m, 0) is None);
                        assert(start + Seq::<FixtureView>::empty() =~= start);
                        return Ok(());
                    },
                }
            } else {
                assert(start + Seq::<FixtureView>::empty() =~= start);
                return Ok(());
            }
        },
        None => {
            assert(start + Seq::<FixtureView>::empty() =~= start);
            return Ok(());
        },
    };
    assert(group_date(group_view(*group).0) == Some(date@));
    let ghost rows = group_view(*group).1;
    let mut i: usize = 0;
    assert(rows.take(0) =~= Seq::<(Seq<char>, Seq<(Option<Seq<char>>, Seq<char>)>)>::empty());
    assert(start + Seq::<FixtureView>::empty() =~= start);
    while i < group.rows.len()
        invariant
            i <= group.rows@.len(),
            rows == group.rows@.map_values(|r: RowElement| row_view(r)),
            fixture_patterns_accepted(),
            fixtures@.map_values(|f: FixtureData| fixture_view(f)) == start + rows_fixtures(
                date@,
                rows.take(i as int),
            ),
        decreases group.rows@.len() - i,
    {
        proof {
            let taken = rows.take(i + 1);
            assert(taken.drop_last() =~= rows.take(i as int));
            assert(taken.last() == row_view(group.rows@[i as int]));
        }
        let ghost before = fixtures@.map_values(|f: FixtureData| fixture_view(f));
        match row_fixture_of(&date, &group.rows[i])? {
            Some(f) => {
                let ghost v = fixture_view(f);
                fixtures.push(f);
                assert(fixtures@.map_values(|f: FixtureData| fixture_view(f)) =~= before.push(v));
            },
            None => {},
        }
        i = i + 1;
    }
    assert(rows.take(group.rows@.len() as int) =~= rows);
    Ok(())
}

/// The fixtures of a league page: for every fixture group dated by its id, the rows that
/// pair two teams (`home v away`), with the row's kick-off time (or `00:00`).
pub fn parse_league_fixtures(html: &str, _league_id: &str) -> (fixtures: Result<
    Vec<FixtureData>,
    ParseError,
>)
    ensures
        match css_select_groups(
            html@,
            fixture_group_selector(),
            "table > tbody > tr"@,
            "a[href]"@,
        ) {
            None => fixtures == Err::<Vec<FixtureData>, ParseError>(ParseError::Selector),
            Some(groups) => if fixture_patterns_accepted() {
                fixtures matches Ok(v) && v@.map_values(|f: FixtureData| fixture_view(f))
                    == groups_fixtures(groups)
            } else {
                fixtures == Err::<Vec<FixtureData>, ParseError>(ParseError::Pattern)
            },
        },
{
    let groups = match select_groups(
        html,
        "#fixtures_accordion_fixtures > div > div:not(.panel-heading)",
        "table > tbody > tr",
        "a[href]",
    ) {
        Some(groups) => groups,
        None => return Err(ParseError::Selector),
    };
    if regex_captures(r"\d{4}-\d{2}-\d{2}", "").is_err() || regex_captures(
        r"^\d{2}:\d{2}$",
        "",
    ).is_err() || regex_captures(r"/info/teams/(\d+)", "").is_err() {
        return Err(ParseError::Pattern);
    }
    let ghost all = groups@.map_values(|g: GroupElement| group_view(g));
    let mut fixtures: Vec<FixtureData> = Vec::new();
    let mut i: usize = 0;
    assert(all.take(0) =~= Seq::<
        (Option<Seq<char>>, Seq<(Seq<char>, Seq<(Option<Seq<char>>, Seq<char>)>)>),
    >::empty());
    assert(fixtures@.map_values(|f: FixtureData| fixture_view(f)) =~= Seq::<FixtureView>::empty());
    while i < groups.len()
        invariant
            i <= groups@.len(),
            all == groups@.map_values(|g: GroupElement| group_view(g)),
            fixture_patterns_accepted(),
            fixtures@.map_values(|f: FixtureData| fixture_view(f)) == groups_fixtures(
                all.take(i as int),
            ),
        decreases groups@.len() - i,
    {
        proof {
            let taken = all.take(i + 1);
            assert(taken.drop_last() =~= all.take(i as int));
            assert(taken.last() == group_view(groups@[i as int]));
        }
        let ghost before = fixtures@.map_values(|f: FixtureData| fixture_view(f));
        group_fixtures_of(&groups[i], &mut fixtures)?;
        proof {
            match group_date(all[i as int].0) {
                Some(date) => {},
                None => {
                    assert(before + Seq::<FixtureView>::empty() =~= before);
                },
            }
        }
        i = i + 1;
    }
    assert(all.take(groups@.len() as int) =~= all);
    Ok(fixtures)
}

/// A fixture table row as plain values: its text and its links (target, text).
pub type RowView = (Seq<char>, Seq<(Option<Seq<char>>, Seq<char>)>);

/// A fixture group as plain values: its id and its rows.
pub type GroupView = (Option<Seq<char>>, Seq<RowView>);

/// Reading rows one after another: the fixtures of two runs of rows are those of the first
/// run followed by those of the second, and a row that states a fixture adds exactly it.
pub proof fn rows_read_in_order(date: Seq<char>, a: Seq<RowView>, b: Seq<RowView>)
    ensures
        rows_fixtures(date, a + b) == rows_fixtures(date, a) + rows_fixtures(date, b),
        forall|r: RowView|
            #[trigger] rows_fixtures(date, a.push(r)) == rows_fixtures(date, a) + (match row_fixture(
                date,
                r,
            ) {
                Some(f) => seq![f],
                None => Seq::<FixtureView>::empty(),
            }),
    decreases b.len(),
{
    assert forall|r: RowView|
        #[trigger] rows_fixtures(date, a.push(r)) == rows_fixtures(date, a) + (match row_fixture(
            date,
            r,
        ) {
            Some(f) => seq![f],
            None => Seq::<FixtureView>::empty(),
        }) by {
        assert(a.push(r).drop_last() =~= a);
        assert(rows_fixtures(date, a) + Seq::<FixtureView>::empty() =~= rows_fixtures(date, a));
        match row_fixture(date, r) {
            Some(f) => assert(rows_fixtures(date, a).push(f) =~= rows_fixtures(date, a) + seq![f]),
            None => {},
        }
    }
    if b.len() == 0 {
        assert(a + b =~= a);
        assert(rows_fixtures(date, a) + Seq::<FixtureView>::empty() =~= rows_fixtures(date, a));
    } else {
        let c = b.drop_last();
        rows_read_in_order(date, a, c);
        assert((a + b).drop_last() =~= a + c);
        assert((a + b).last() == b.last());
        match row_fixture(date, b.last()) {
            Some(f) => {
                assert((rows_fixtures(date, a) + rows_fixtures(date, c)).push(f) =~= rows_fixtures(
                    date,
                    a,
                ) + rows_fixtures(date, c).push(f));
            },
            None => {},
        }
    }
}

/// Every dated fixture group counts, whatever came before it: the fixtures of two runs of
/// groups are those of the first run followed by those of the second; a group dated by its id
/// adds all the fixtures of its rows, and a group without a date adds none.
pub proof fn every_dated_group_is_read(gs: Seq<GroupView>, hs: Seq<GroupView>)
    ensures
        groups_fixtures(gs + hs) == groups_fixtures(gs) + groups_fixtures(hs),
        forall|g: GroupView|
            #[trigger] groups_fixtures(gs.push(g)) == groups_fixtures(gs) + (match group_date(g.0) {
                Some(date) => rows_fixtures(date, g.1),
                None => Seq::<FixtureView>::empty(),
            }),
    decreases hs.len(),
{
    assert forall|g: GroupView|
        #[trigger] groups_fixtures(gs.push(g)) == groups_fixtures(gs) + (match group_date(g.0) {
            Some(date) => rows_fixtures(date, g.1),
            None => Seq::<FixtureView>::empty(),
        }) by {
        assert(gs.push(g).drop_last() =~= gs);
        assert(groups_fixtures(gs) + Seq::<FixtureView>::empty() =~= groups_fixtures(gs));
    }
    if hs.len() == 0 {
        assert(gs + hs =~= gs);
        assert(groups_fixtures(gs) + Seq::<FixtureView>::empty() =~= groups_fixtures(gs));
    } else {
        let c = hs.drop_last();
        every_dated_group_is_read(gs, c);
        assert((gs + hs).drop_last() =~= gs + c);
        assert((gs + hs).last() == hs.last());
        match group_date(hs.last().0) {
            Some(date) => {
                assert(groups_fixtures(gs) + groups_fixtures(c) + rows_fixtures(date, hs.last().1)
                    =~= groups_fixtures(gs) + (groups_fixtures(c) + rows_fixtures(
                    date,
                    hs.last().1,
                )));
            },
            None => {},
        }
    }
}

} // verus!
