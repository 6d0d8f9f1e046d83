//! Assembling a page's metadata from the text of its response.

use crate::locator::{
    favicon_href, favicon_href_chars, meta_content, meta_content_chars, title_chars, title_text,
    to_optional_string,
};
use crate::text::{chars_of, copy_range, to_chars, to_string};
use crate::url::{absolutize, absolutize_chars, origin_len, origin_of};
use vstd::prelude::*;

verus! {

/// How many characters of a response body are read. Meta tags stand in the
/// head of a page, so the rest is not searched.
pub const BODY_LIMIT: usize = 20_000;

/// What is known of a page for a link card.
#[derive(Debug, Clone, PartialEq, Eq)]
pub struct OgMetadata {
    pub title: Option<String>,
    pub description: Option<String>,
    pub image: Option<String>,
    pub site_name: Option<String>,
    pub favicon: Option<String>,
    pub url: String,
}

/// The metadata of a page as plain text.
pub struct PageMetadata {
    pub title: Option<Seq<char>>,
    pub description: Option<Seq<char>>,
    pub image: Option<Seq<char>>,
    pub site_name: Option<Seq<char>>,
    pub favicon: Option<Seq<char>>,
    pub url: Seq<char>,
}

impl View for OgMetadata {
    type V = PageMetadata;

    open spec fn view(&self) -> PageMetadata {
        PageMetadata {
            title: self.title.deep_view(),
            description: self.description.deep_view(),
            image: self.image.deep_view(),
            site_name: self.site_name.deep_view(),
            favicon: self.favicon.deep_view(),
            url: self.url@,
        }
    }
}

/// The part of a response body that is read: its first `BODY_LIMIT`
/// characters.
pub open spec fn head_of(body: Seq<char>) -> Seq<char> {
    if body.len() > BODY_LIMIT {
        body.take(BODY_LIMIT as int)
    } else {
        body
    }
}

/// The title of a page: the `og:title` where there is one, else the text of
/// `<title>`.
pub open spec fn page_title(html: Seq<char>) -> Option<Seq<char>> {
    match meta_content(html, "og:title"@) {
        Some(title) => Some(title),
        None => title_text(html),
    }
}

/// The preview image of a page: its `og:image`, resolved against `base`.
pub open spec fn page_image(html: Seq<char>, base: Seq<char>) -> Option<Seq<char>> {
    match meta_content(html, "og:image"@) {
        Some(href) => Some(absolutize(href, base)),
        None => None,
    }
}

/// The icon of a page: the href of its icon link, or `/favicon.ico`,
/// resolved against `base`.
pub open spec fn favicon_url(html: Seq<char>, base: Seq<char>) -> Seq<char> {
    absolutize(favicon_href(html), base)
}

/// The metadata of the page that was asked for as `url` and answered with
/// `body`.
pub open spec fn page_metadata(body: Seq<char>, url: Seq<char>) -> PageMetadata {
    let html = head_of(body);
    let base = origin_of(url);
    PageMetadata {
        title: page_title(html),
        description: meta_content(html, "og:description"@),
        image: page_image(html, base),
        site_name: meta_content(html, "og:site_name"@),
        favicon: Some(favicon_url(html, base)),
        url,
    }
}

/// The first `limit` characters of `s`, or all of them where it has fewer.
pub fn leading_chars(s: &str, limit: usize) -> (v: Vec<char>)
    ensures
        v@ == if s@.len() > limit {
            s@.take(limit as int)
        } else {
            s@
        },
{
    let mut v: Vec<char> = Vec::new();
    for c in it: s.chars()
        invariant
            it.seq() == s@,
            v@ == if it.index() > limit {
                it.seq().take(limit as int)
            } else {
                it.seq().take(it.index() as int)
            },
    {
        if v.len() < limit {
            v.push(c);
        }
    }
    v
}

/// The value of a meta tag, by the name of its property.
fn meta_value(html: &[char], property: &str) -> (value: Option<Vec<char>>)
    ensures
        chars_of(value) == meta_content(html@, property@),
{
    let property_chars = to_chars(property);
    meta_content_chars(html, property_chars.as_slice())
}

/// The icon of a page whose origin is `base_url`, as an absolute URL: the
/// href of `rel="icon"`, of `rel="shortcut icon"` or of
/// `rel="apple-touch-icon"`, whichever comes first in this order, or else
/// `/favicon.ico`. There always is one.
pub fn extract_favicon(html: &str, base_url: &str) -> (favicon: Option<String>)
    ensures
        favicon.deep_view() == Some(favicon_url(html@, base_url@)),
{
    let html_chars = to_chars(html);
    let base_chars = to_chars(base_url);
    let href = favicon_href_chars(html_chars.as_slice());
    let absolute = absolutize_chars(href.as_slice(), base_chars.as_slice());
    Some(to_string(absolute.as_slice()))
}

/// The metadata of the page that was asked for as `url` and answered with
/// `body`. It depends on nothing but these two texts: the same body and URL
/// give the same metadata, whenever and however often they are read.
pub fn resolve_metadata(body: &str, url: &str) -> (metadata: OgMetadata)
    ensures
        metadata@ == page_metadata(body@, url@),
{
    let html_vec = leading_chars(body, BODY_LIMIT);
    let html = html_vec.as_slice();
    let url_chars = to_chars(url);
    let base_len = origin_len(url_chars.as_slice());
    let base_vec = copy_range(url_chars.as_slice(), 0, base_len);
    let base = base_vec.as_slice();
    assert(base@ =~= origin_of(url@));

    let title = match meta_value(html, "og:title") {
        Some(title) => Some(title),
        None => title_chars(html),
    };
    let image = match meta_value(html, "og:image") {
        Some(href) => Some(absolutize_chars(href.as_slice(), base)),
        None => None,
    };
    let icon_href = favicon_href_chars(html);
    let icon = absolutize_chars(icon_href.as_slice(), base);
    let metadata = OgMetadata {
        title: to_optional_string(title),
        description: to_optional_string(meta_value(html, "og:description")),
        image: to_optional_string(image),
        site_name: to_optional_string(meta_value(html, "og:site_name")),
        favicon: Some(to_string(icon.as_slice())),
        url: to_string(url_chars.as_slice()),
    };
    assert(html@ == head_of(body@));
    assert(metadata@.title == page_title(html@));
    assert(metadata@.description == meta_content(html@, "og:description"@));
    assert(metadata@.image == page_image(html@, base@));
    assert(metadata@.site_name == meta_content(html@, "og:site_name"@));
    assert(metadata@.favicon == Some(favicon_url(html@, base@)));
    assert(metadata@.url == url@);
    metadata
}

} // verus!
