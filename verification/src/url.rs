//! The origin of a request URL, and the resolution of hrefs against it.

use crate::text::{
    append_range, append_str, begins_with, find_in, first_occurrence, starts_with, to_chars,
    to_string,
};
use vstd::prelude::*;

verus! {

/// The scheme and host of `url`: what stands before the first `/` after
/// `://`. A URL without `://`, or without a `/` after it, is its own origin.
pub open spec fn origin_of(url: Seq<char>) -> Seq<char> {
    match first_occurrence(url, "://"@) {
        Some(s) => match first_occurrence(url.skip(s + 3), "/"@) {
            Some(p) => url.take(s + 3 + p),
            None => url,
        },
        None => url,
    }
}

/// `text` without the run of `c` at its end.
pub open spec fn strip_trailing(text: Seq<char>, c: char) -> Seq<char>
    decreases text.len(),
{
    if text.len() > 0 && text.last() == c {
        strip_trailing(text.drop_last(), c)
    } else {
        text
    }
}

/// `text` without the run of `c` at its start.
pub open spec fn strip_leading(text: Seq<char>, c: char) -> Seq<char>
    decreases text.len(),
{
    if text.len() > 0 && text[0] == c {
        strip_leading(text.skip(1), c)
    } else {
        text
    }
}

/// `base` and `path` joined by exactly one `/`.
pub open spec fn join_path(base: Seq<char>, path: Seq<char>) -> Seq<char> {
    strip_trailing(base, '/') + "/"@ + strip_leading(path, '/')
}

/// The absolute form of `href` on a page whose origin is `base`: an href
/// that begins with `http` is kept, one that begins with `//` gets the
/// scheme `https:`, and any other is a path below `base`.
pub open spec fn absolutize(href: Seq<char>, base: Seq<char>) -> Seq<char> {
    if starts_with(href, "http"@) {
        href
    } else if starts_with(href, "//"@) {
        "https:"@ + href
    } else {
        join_path(base, href)
    }
}

/// Where `strip_trailing(text, c)` ends.
fn trailing_cut(text: &[char], c: char) -> (end: usize)
    ensures
        end <= text.len(),
        text@.take(end as int) == strip_trailing(text@, c),
{
    let mut end: usize = text.len();
    assert(text@.take(end as int) =~= text@);
    while end > 0 && text[end - 1] == c
        invariant
            end <= text.len(),
            strip_trailing(text@.take(end as int), c) == strip_trailing(text@, c),
        decreases end,
    {
        assert(text@.take(end as int).drop_last() =~= text@.take(end - 1));
        end -= 1;
    }
    end
}

/// Where `strip_leading(text, c)` begins.
fn leading_cut(text: &[char], c: char) -> (start: usize)
    ensures
        start <= text.len(),
        text@.skip(start as int) == strip_leading(text@, c),
{
    let mut start: usize = 0;
    assert(text@.skip(0) =~= text@);
    while start < text.len() && text[start] == c
        invariant
            start <= text.len(),
            strip_leading(text@.skip(start as int), c) == strip_leading(text@, c),
        decreases text.len() - start,
    {
        assert(text@.skip(start as int).skip(1) =~= text@.skip(start + 1));
        start += 1;
    }
    start
}

/// How many characters of `url` make up its origin.
pub fn origin_len(url: &[char]) -> (n: usize)
    ensures
        n <= url.len(),
        url@.take(n as int) == origin_of(url@),
{
    proof {
        reveal_strlit("://");
        reveal_strlit("/");
    }
    let scheme_mark = to_chars("://");
    let slash = to_chars("/");
    assert(url@.subrange(0, url.len() as int) =~= url@);
    assert(url@.take(url.len() as int) =~= url@);
    match find_in(url, scheme_mark.as_slice(), 0, url.len()) {
        Some(s) => {
            assert(url@.subrange(s + 3, url.len() as int) =~= url@.skip(s + 3));
            match find_in(url, slash.as_slice(), s + 3, url.len()) {
                Some(p) => p,
                None => url.len(),
            }
        },
        None => url.len(),
    }
}

/// `base` and `path` joined by exactly one `/`.
pub fn join_chars(base: &[char], path: &[char]) -> (out: Vec<char>)
    ensures
        out@ == join_path(base@, path@),
{
    let end = trailing_cut(base, '/');
    let start = leading_cut(path, '/');
    let mut out: Vec<char> = Vec::new();
    append_range(&mut out, base, 0, end);
    append_str(&mut out, "/");
    append_range(&mut out, path, start, path.len());
    assert(base@.subrange(0, end as int) =~= base@.take(end as int));
    assert(path@.subrange(start as int, path.len() as int) =~= path@.skip(start as int));
    assert(out@ =~= join_path(base@, path@));
    out
}

/// The absolute form of `href` on a page whose origin is `base`.
pub fn absolutize_chars(href: &[char], base: &[char]) -> (out: Vec<char>)
    ensures
        out@ == absolutize(href@, base@),
{
    let http = to_chars("http");
    let slashes = to_chars("//");
    if begins_with(href, http.as_slice()) {
        let mut out: Vec<char> = Vec::new();
        append_range(&mut out, href, 0, href.len());
        assert(out@ =~= href@);
        out
    } else if begins_with(href, slashes.as_slice()) {
        let mut out: Vec<char> = Vec::new();
        append_str(&mut out, "https:");
        append_range(&mut out, href, 0, href.len());
        assert(out@ =~= "https:"@ + href@);
        out
    } else {
        join_chars(base, href)
    }
}

/// The scheme and host of `url`, against which the hrefs of the page are
/// resolved.
pub fn get_base_url(url: &str) -> (base: String)
    ensures
        base@ == origin_of(url@),
{
    let chars = to_chars(url);
    let n = origin_len(chars.as_slice());
    let mut out: Vec<char> = Vec::new();
    append_range(&mut out, chars.as_slice(), 0, n);
    assert(out@ =~= chars@.take(n as int));
    to_string(out.as_slice())
}

/// The absolute form of `href` on a page whose origin is `base_url`.
pub fn absolutize_url(href: &str, base_url: &str) -> (absolute: String)
    ensures
        absolute@ == absolutize(href@, base_url@),
{
    let href_chars = to_chars(href);
    let base_chars = to_chars(base_url);
    let out = absolutize_chars(href_chars.as_slice(), base_chars.as_slice());
    to_string(out.as_slice())
}

} // verus!
