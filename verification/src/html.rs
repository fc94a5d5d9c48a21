//! What the parsers take from the `scraper` and `regex` crates: the elements a CSS selector
//! picks from an HTML page, and the capture groups of a regular expression's first match.
//! Each item here is trusted; its contract names the outside crate's result.

use vstd::prelude::*;

verus! {

/// An element a CSS selector picked: its text (its descendant text nodes, concatenated)
/// and the value of one of its attributes.
pub struct Selected {
    pub text: String,
    pub attribute: Option<String>,
}

pub open spec fn selected_view(s: Selected) -> (Seq<char>, Option<Seq<char>>) {
    (
        s.text@,
        match s.attribute {
            Some(a) => Some(a@),
            None => None,
        },
    )
}

/// What `scraper` selects: `None` where `Selector::parse` refuses `selector`; otherwise
/// the elements of `Html::parse_document(html)` that it matches, in document order, each
/// with its text and the value of `attribute`.
pub uninterp spec fn css_select(html: Seq<char>, selector: Seq<char>, attribute: Seq<char>) -> Option<
    Seq<(Seq<char>, Option<Seq<char>>)>,
>;

/// `scraper::Selector::parse` and `Html::select` on `Html::parse_document`, with each element's
/// `text()` and `attr(attribute)`. The contract names the result.
#[verifier::external_body]
pub(crate) fn select_elements(html: &str, selector: &str, attribute: &str) -> (found: Option<Vec<Selected>>)
    ensures
        match found {
            None => css_select(html@, selector@, attribute@) is None,
            Some(v) => css_select(html@, selector@, attribute@) == Some(
                v@.map_values(|s: Selected| selected_view(s)),
            ),
        },
{
    let selector = scraper::Selector::parse(selector).ok()?;
    let document = scraper::Html::parse_document(html);
    Some(
        document.select(&selector).map(|element| Selected {
            text: element.text().collect(),
            attribute: element.value().attr(attribute).map(String::from),
        }).collect(),
    )
}

/// A link inside a table row: its `href` and its text.
pub struct LinkElement {
    pub href: Option<String>,
    pub text: String,
}

/// A table row: its text and its links.
pub struct RowElement {
    pub text: String,
    pub links: Vec<LinkElement>,
}

/// A group of rows: its `id` and its rows.
pub struct GroupElement {
    pub id: Option<String>,
    pub rows: Vec<RowElement>,
}

pub open spec fn optional_text(o: Option<String>) -> Option<Seq<char>> {
    match o {
        Some(s) => Some(s@),
        None => None,
    }
}

pub open spec fn link_view(l: LinkElement) -> (Option<Seq<char>>, Seq<char>) {
    (optional_text(l.href), l.text@)
}

pub open spec fn row_view(r: RowElement) -> (Seq<char>, Seq<(Option<Seq<char>>, Seq<char>)>) {
    (r.text@, r.links@.map_values(|l: LinkElement| link_view(l)))
}

pub open spec fn group_view(g: GroupElement) -> (
    Option<Seq<char>>,
    Seq<(Seq<char>, Seq<(Option<Seq<char>>, Seq<char>)>)>,
) {
    (optional_text(g.id), g.rows@.map_values(|r: RowElement| row_view(r)))
}

/// What `scraper` selects in three levels: `None` where one of the selectors is refused;
/// otherwise the groups `group_selector` matches in `Html::parse_document(html)`, each with
/// its `id`, the rows `row_selector` matches inside it (each with its text), and inside each
/// row the links `link_selector` matches (each with its `href` and text), all in document order.
pub uninterp spec fn css_select_groups(
    html: Seq<char>,
    group_selector: Seq<char>,
    row_selector: Seq<char>,
    link_selector: Seq<char>,
) -> Option<
    Seq<(Option<Seq<char>>, Seq<(Seq<char>, Seq<(Option<Seq<char>>, Seq<char>)>)>)>,
>;

/// `scraper::Selector::parse` for three selectors, then `Html::select` and `ElementRef::select`
/// nested three deep. The contract names the result.
#[verifier::external_body]
pub(crate) fn select_groups(html: &str, group_selector: &str, row_selector: &str, link_selector: &str) -> (found:
    Option<Vec<GroupElement>>)
    ensures
        match found {
            None => css_select_groups(html@, group_selector@, row_selector@, link_selector@) is None,
            Some(v) => css_select_groups(html@, group_selector@, row_selector@, link_selector@)
                == Some(v@.map_values(|g: GroupElement| group_view(g))),
        },
{
    let groups = scraper::Selector::parse(group_selector).ok()?;
    let rows = scraper::Selector::parse(row_selector).ok()?;
    let links = scraper::Selector::parse(link_selector).ok()?;
    let document = scraper::Html::parse_document(html);
    Some(document.select(&groups).map(|group| GroupElement {
        id: group.value().attr("id").map(String::from),
        rows: group.select(&rows).map(|row| RowElement {
            text: row.text().collect(),
            links: row.select(&links).map(|link| LinkElement {
                href: link.value().attr("href").map(String::from),
                text: link.text().collect(),
            }).collect(),
        }).collect(),
    }).collect())
}

#[verifier::external_type_specification]
#[verifier::external_body]
pub struct ExRegexError(regex::Error);

/// Whether `regex::Regex::new` accepts `pattern`.
pub uninterp spec fn regex_accepts(pattern: Seq<char>) -> bool;

/// The capture groups of the first match that `regex::Regex::captures` finds for `pattern`
/// in `haystack` (group 0 is the whole match; a group that took no part is `None`), or
/// `None` where there is no match.
pub uninterp spec fn regex_first_match(pattern: Seq<char>, haystack: Seq<char>) -> Option<
    Seq<Option<Seq<char>>>,
>;

pub open spec fn groups_view(groups: Seq<Option<String>>) -> Seq<Option<Seq<char>>> {
    groups.map_values(|g: Option<String>| optional_text(g))
}

/// `regex::Regex::new(pattern)` and then `Regex::captures(haystack)`, with every group of
/// the match as text. The contract names both results.
#[verifier::external_body]
pub(crate) fn regex_captures(pattern: &str, haystack: &str) -> (r: Result<
    Option<Vec<Option<String>>>,
    regex::Error,
>)
    ensures
        r is Err <==> !regex_accepts(pattern@),
        r matches Ok(found) ==> match found {
            None => regex_first_match(pattern@, haystack@) is None,
            Some(groups) => regex_first_match(pattern@, haystack@) == Some(groups_view(groups@)),
        },
{
    let compiled = regex::Regex::new(pattern)?;
    Ok(compiled.captures(haystack).map(|captures| {
        captures.iter().map(|group| group.map(|m| m.as_str().to_string())).collect()
    }))
}

} // verus!
