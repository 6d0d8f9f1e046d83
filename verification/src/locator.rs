//! Finding one attribute value in raw HTML without parsing it.
//!
//! A marker (`property="og:title"`, `rel="icon"`) is looked up in the whole
//! text. Around its first occurrence a window of bounded size is cut, the
//! nearest tag start before the marker is taken as the start of the tag that
//! holds it, and the value of the wanted attribute is read from that tag
//! alone: the tag ends with its first `>`, and what follows it is not read.
//! A meta tag that the window cuts off gives nothing; a link tag that does
//! not close inside the window is read up to the window's end.

use crate::entities::{decode_chars, decode_entities};
use crate::text::{
    append_range, append_str, chars_of, copy_range, find_in, first_occurrence, last_occurrence,
    rfind_in, to_chars, to_string, trim, trim_span,
};
use vstd::prelude::*;

verus! {

/// How many characters before a `property` marker are searched for `<meta`.
pub const META_BEFORE: usize = 200;

/// How many characters from a `property` marker on belong to its window.
pub const META_AFTER: usize = 300;

/// How many characters before a `rel` marker are searched for `<link`.
pub const LINK_BEFORE: usize = 300;

/// How many characters from a `rel` marker on belong to its window.
pub const LINK_AFTER: usize = 100;

/// Where the window round a marker at `pos` begins.
pub open spec fn window_start(pos: int, before: int) -> int {
    if pos > before {
        pos - before
    } else {
        0
    }
}

/// Where the window round a marker at `pos` ends, in a text of `len`
/// characters.
pub open spec fn window_end(pos: int, after: int, len: int) -> int {
    if pos + after < len {
        pos + after
    } else {
        len
    }
}

/// The text of the tag that holds the marker at `pos`: from the last
/// `opener` that lies in the window before the marker, up to and with the
/// first `>` after it. There is none where no `opener` lies in the window
/// before the marker. Where the tag does not close inside the window there
/// is none either if it `must_close`; otherwise the tag is what the window
/// holds of it.
pub open spec fn enclosing_tag(
    html: Seq<char>,
    pos: int,
    opener: Seq<char>,
    before: int,
    after: int,
    must_close: bool,
) -> Option<Seq<char>> {
    let from = window_start(pos, before);
    let to = window_end(pos, after, html.len() as int);
    match last_occurrence(html.subrange(from, pos), opener) {
        None => None,
        Some(t) => {
            let rest = html.subrange(from + t, to);
            match first_occurrence(rest, ">"@) {
                Some(close) => Some(rest.take(close + 1)),
                None => if must_close {
                    None
                } else {
                    Some(rest)
                },
            }
        },
    }
}

/// What follows the first `attr` in `tag`, up to the next `"`. `attr` ends
/// with the opening quote, as in `content="`.
pub open spec fn quoted_value(tag: Seq<char>, attr: Seq<char>) -> Option<Seq<char>> {
    match first_occurrence(tag, attr) {
        None => None,
        Some(a) => {
            let tail = tag.skip(a + attr.len());
            match first_occurrence(tail, "\""@) {
                Some(quote) => Some(tail.take(quote)),
                None => None,
            }
        },
    }
}

/// The marker of a meta tag with the given property name.
pub open spec fn property_marker(property: Seq<char>) -> Seq<char> {
    "property=\""@ + property + "\""@
}

/// The `content` of the meta tag that holds the first `property` marker of
/// the given name, with its escapes decoded. An empty `content` counts as
/// none.
pub open spec fn meta_content(html: Seq<char>, property: Seq<char>) -> Option<Seq<char>> {
    match first_occurrence(html, property_marker(property)) {
        None => None,
        Some(pos) => match enclosing_tag(
            html,
            pos,
            "<meta"@,
            META_BEFORE as int,
            META_AFTER as int,
            true,
        ) {
            None => None,
            Some(tag) => match quoted_value(tag, "content=\""@) {
                Some(value) => if value.len() > 0 {
                    Some(decode_entities(value))
                } else {
                    None
                },
                None => None,
            },
        },
    }
}

/// The text between the first `<title ...>` and the `</title>` after it,
/// trimmed, with its escapes decoded. A title that is empty after trimming
/// counts as none.
pub open spec fn title_text(html: Seq<char>) -> Option<Seq<char>> {
    match first_occurrence(html, "<title"@) {
        None => None,
        Some(start) => match first_occurrence(html.skip(start), ">"@) {
            None => None,
            Some(close) => {
                let body = html.skip(start + close + 1);
                match first_occurrence(body, "</title>"@) {
                    None => None,
                    Some(end) => {
                        let title = trim(body.take(end));
                        if title.len() > 0 {
                            Some(decode_entities(title))
                        } else {
                            None
                        }
                    },
                }
            },
        },
    }
}

/// The `href` of the link tag that holds the first occurrence of `marker`,
/// as it stands in the text. It is sought in that tag only: an `href`
/// behind the `>` that closes the tag belongs to another element and is not
/// read.
pub open spec fn link_href(html: Seq<char>, marker: Seq<char>) -> Option<Seq<char>> {
    match first_occurrence(html, marker) {
        None => None,
        Some(pos) => match enclosing_tag(
            html,
            pos,
            "<link"@,
            LINK_BEFORE as int,
            LINK_AFTER as int,
            false,
        ) {
            None => None,
            Some(tag) => quoted_value(tag, "href=\""@),
        },
    }
}

/// The href of the page's icon, as it stands in the text: that of
/// `rel="icon"` where it gives one, else that of `rel="shortcut icon"`, else
/// that of `rel="apple-touch-icon"`, else the path `/favicon.ico`. The order
/// of the three in the text plays no part.
pub open spec fn favicon_href(html: Seq<char>) -> Seq<char> {
    match link_href(html, "rel=\"icon\""@) {
        Some(href) => href,
        None => match link_href(html, "rel=\"shortcut icon\""@) {
            Some(href) => href,
            None => match link_href(html, "rel=\"apple-touch-icon\""@) {
                Some(href) => href,
                None => "/favicon.ico"@,
            },
        },
    }
}

/// The bounds in `html` of the tag that holds the marker at `pos`.
fn enclosing_tag_span(
    html: &[char],
    pos: usize,
    opener: &[char],
    before: usize,
    after: usize,
    must_close: bool,
) -> (span: Option<(usize, usize)>)
    requires
        pos <= html.len(),
    ensures
        match span {
            Some((a, b)) => a <= b <= html.len() && enclosing_tag(
                html@,
                pos as int,
                opener@,
                before as int,
                after as int,
                must_close,
            ) == Some(html@.subrange(a as int, b as int)),
            None => enclosing_tag(
                html@,
                pos as int,
                opener@,
                before as int,
                after as int,
                must_close,
            ) is None,
        },
{
    let from: usize = if pos > before {
        pos - before
    } else {
        0
    };
    let to: usize = if after < html.len() - pos {
        pos + after
    } else {
        html.len()
    };
    match rfind_in(html, opener, from, pos) {
        None => None,
        Some(start) => {
            proof {
                reveal_strlit(">");
            }
            let close_mark = to_chars(">");
            match find_in(html, close_mark.as_slice(), start, to) {
                Some(close) => {
                    assert(html@.subrange(start as int, to as int).take(close - start + 1)
                        =~= html@.subrange(start as int, close + 1));
                    Some((start, close + 1))
                },
                None => if must_close {
                    None
                } else {
                    Some((start, to))
                },
            }
        },
    }
}

/// The bounds in `text` of what follows the first `attr` in `text[lo..hi]`,
/// up to the next `"`.
fn quoted_value_span(text: &[char], lo: usize, hi: usize, attr: &[char]) -> (span: Option<
    (usize, usize),
>)
    requires
        lo <= hi <= text.len(),
    ensures
        match span {
            Some((a, b)) => lo <= a <= b <= hi && quoted_value(
                text@.subrange(lo as int, hi as int),
                attr@,
            ) == Some(text@.subrange(a as int, b as int)),
            None => quoted_value(text@.subrange(lo as int, hi as int), attr@) is None,
        },
{
    proof {
        reveal_strlit("\"");
    }
    let quote_mark = to_chars("\"");
    match find_in(text, attr, lo, hi) {
        None => None,
        Some(at) => {
            let value_start: usize = at + attr.len();
            assert(text@.subrange(lo as int, hi as int).skip(at - lo + attr@.len())
                =~= text@.subrange(value_start as int, hi as int));
            match find_in(text, quote_mark.as_slice(), value_start, hi) {
                None => None,
                Some(quote) => {
                    assert(text@.subrange(value_start as int, hi as int).take(quote - value_start)
                        =~= text@.subrange(value_start as int, quote as int));
                    Some((value_start, quote))
                },
            }
        },
    }
}

/// The marker of a meta tag with the given property name.
fn make_property_marker(property: &[char]) -> (marker: Vec<char>)
    ensures
        marker@ == property_marker(property@),
{
    let mut marker: Vec<char> = Vec::new();
    append_str(&mut marker, "property=\"");
    append_range(&mut marker, property, 0, property.len());
    append_str(&mut marker, "\"");
    assert(property@.subrange(0, property.len() as int) =~= property@);
    assert(marker@ =~= property_marker(property@));
    marker
}

/// The decoded `content` of the meta tag with the given property name.
pub fn meta_content_chars(html: &[char], property: &[char]) -> (value: Option<Vec<char>>)
    ensures
        chars_of(value) == meta_content(html@, property@),
{
    let marker = make_property_marker(property);
    let opener = to_chars("<meta");
    let attr = to_chars("content=\"");
    assert(html@.subrange(0, html.len() as int) =~= html@);
    match find_in(html, marker.as_slice(), 0, html.len()) {
        None => None,
        Some(pos) => match enclosing_tag_span(
            html,
            pos,
            opener.as_slice(),
            META_BEFORE,
            META_AFTER,
            true,
        ) {
            None => None,
            Some((tag_start, tag_end)) => match quoted_value_span(
                html,
                tag_start,
                tag_end,
                attr.as_slice(),
            ) {
                None => None,
                Some((a, b)) => {
                    if a < b {
                        let raw = copy_range(html, a, b);
                        Some(decode_chars(raw.as_slice()))
                    } else {
                        None
                    }
                },
            },
        },
    }
}

/// The decoded text of the page's `<title>`.
pub fn title_chars(html: &[char]) -> (value: Option<Vec<char>>)
    ensures
        chars_of(value) == title_text(html@),
{
    proof {
        reveal_strlit(">");
    }
    let opener = to_chars("<title");
    let close_mark = to_chars(">");
    let closer = to_chars("</title>");
    let len: usize = html.len();
    assert(html@.subrange(0, len as int) =~= html@);
    match find_in(html, opener.as_slice(), 0, len) {
        None => None,
        Some(start) => {
            assert(html@.subrange(start as int, len as int) =~= html@.skip(start as int));
            match find_in(html, close_mark.as_slice(), start, len) {
                None => None,
                Some(close) => {
                    let body_start: usize = close + 1;
                    assert(html@.subrange(body_start as int, len as int) =~= html@.skip(
                        body_start as int,
                    ));
                    match find_in(html, closer.as_slice(), body_start, len) {
                        None => None,
                        Some(end) => {
                            assert(html@.skip(body_start as int).take(end - body_start)
                                =~= html@.subrange(body_start as int, end as int));
                            let (a, b) = trim_span(html, body_start, end);
                            if a < b {
                                let raw = copy_range(html, a, b);
                                Some(decode_chars(raw.as_slice()))
                            } else {
                                None
                            }
                        },
                    }
                },
            }
        },
    }
}

/// The `href` of the link tag that holds the first occurrence of `marker`.
fn link_href_chars(html: &[char], marker: &str) -> (value: Option<Vec<char>>)
    ensures
        chars_of(value) == link_href(html@, marker@),
{
    let marker_chars = to_chars(marker);
    let opener = to_chars("<link");
    let attr = to_chars("href=\"");
    assert(html@.subrange(0, html.len() as int) =~= html@);
    match find_in(html, marker_chars.as_slice(), 0, html.len()) {
        None => None,
        Some(pos) => match enclosing_tag_span(
            html,
            pos,
            opener.as_slice(),
            LINK_BEFORE,
            LINK_AFTER,
            false,
        ) {
            None => None,
            Some((tag_start, tag_end)) => match quoted_value_span(
                html,
                tag_start,
                tag_end,
                attr.as_slice(),
            ) {
                None => None,
                Some((a, b)) => Some(copy_range(html, a, b)),
            },
        },
    }
}

/// The href of the page's icon, as it stands in the text.
pub fn favicon_href_chars(html: &[char]) -> (href: Vec<char>)
    ensures
        href@ == favicon_href(html@),
{
    if let Some(href) = link_href_chars(html, "rel=\"icon\"") {
        return href;
    }
    if let Some(href) = link_href_chars(html, "rel=\"shortcut icon\"") {
        return href;
    }
    if let Some(href) = link_href_chars(html, "rel=\"apple-touch-icon\"") {
        return href;
    }
    to_chars("/favicon.ico")
}

/// A sequence of characters as a string, where there is one.
pub fn to_optional_string(value: Option<Vec<char>>) -> (s: Option<String>)
    ensures
        s.deep_view() == chars_of(value),
{
    match value {
        Some(chars) => Some(to_string(chars.as_slice())),
        None => None,
    }
}

/// The decoded `content` of the first meta tag of `html` whose `property`
/// is the given name.
pub fn extract_og(html: &str, property: &str) -> (value: Option<String>)
    ensures
        value.deep_view() == meta_content(html@, property@),
{
    let html_chars = to_chars(html);
    let property_chars = to_chars(property);
    to_optional_string(meta_content_chars(html_chars.as_slice(), property_chars.as_slice()))
}

/// The decoded text of the page's `<title>`.
pub fn extract_title(html: &str) -> (value: Option<String>)
    ensures
        value.deep_view() == title_text(html@),
{
    let html_chars = to_chars(html);
    to_optional_string(title_chars(html_chars.as_slice()))
}

} // verus!
