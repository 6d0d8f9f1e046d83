//! What holds of the extraction for every page, proved from the definitions
//! that the contracts of the library are stated in.

use crate::entities::{decode_entities, lemma_replace_nothing};
use crate::fetch::{is_success, step_after, FetchError, FetchEvent, FetchStep};
use crate::locator::{
    enclosing_tag, favicon_href, link_href, meta_content, property_marker, quoted_value,
    title_text, window_end, window_start, LINK_AFTER, LINK_BEFORE, META_AFTER, META_BEFORE,
};
use crate::resolver::{favicon_url, head_of, page_metadata, OgMetadata, BODY_LIMIT};
use crate::text::{
    contains, first_occurrence, last_occurrence, lemma_first_occurrence,
    lemma_first_occurrence_is, lemma_last_occurrence_is, occurs_at, starts_with, trim,
};
use crate::url::{absolutize, join_path, origin_of, strip_leading, strip_trailing};
use vstd::prelude::*;

verus! {

/// A page that holds neither the marker of an `og:title` nor a `<title`
/// in the part that is read has no title.
pub proof fn law_no_title_without_tags(body: Seq<char>, url: Seq<char>)
    requires
        !contains(head_of(body), property_marker("og:title"@)),
        !contains(head_of(body), "<title"@),
    ensures
        page_metadata(body, url).title is None,
{
    let html = head_of(body);
    lemma_first_occurrence(html, property_marker("og:title"@));
    lemma_first_occurrence(html, "<title"@);
}

/// A page without any of the three icon markers in the part that is read
/// gets the icon `/favicon.ico` of its origin: the origin without the
/// slashes at its end, then `/favicon.ico`. Where the origin does not end
/// with a slash, that is the origin followed by `/favicon.ico`.
pub proof fn law_favicon_falls_back_to_origin(body: Seq<char>, url: Seq<char>)
    requires
        !contains(head_of(body), "rel=\"icon\""@),
        !contains(head_of(body), "rel=\"shortcut icon\""@),
        !contains(head_of(body), "rel=\"apple-touch-icon\""@),
    ensures
        page_metadata(body, url).favicon == Some(
            strip_trailing(origin_of(url), '/') + "/favicon.ico"@,
        ),
        origin_of(url).len() == 0 || origin_of(url).last() != '/' ==> page_metadata(
            body,
            url,
        ).favicon == Some(origin_of(url) + "/favicon.ico"@),
{
    let html = head_of(body);
    let base = origin_of(url);
    lemma_first_occurrence(html, "rel=\"icon\""@);
    lemma_first_occurrence(html, "rel=\"shortcut icon\""@);
    lemma_first_occurrence(html, "rel=\"apple-touch-icon\""@);
    assert(favicon_href(html) == "/favicon.ico"@);
    reveal_strlit("/favicon.ico");
    reveal_strlit("favicon.ico");
    reveal_strlit("http");
    reveal_strlit("//");
    reveal_strlit("/");
    let path = "/favicon.ico"@;
    assert(!starts_with(path, "http"@)) by {
        if starts_with(path, "http"@) {
            assert(path.subrange(0, 4)[0] == "http"@[0]);
        }
    }
    assert(!starts_with(path, "//"@)) by {
        if starts_with(path, "//"@) {
            assert(path.subrange(0, 2)[1] == "//"@[1]);
        }
    }
    assert(strip_leading(path, '/') == "favicon.ico"@) by {
        assert(path.skip(1) =~= "favicon.ico"@);
        assert(strip_leading("favicon.ico"@, '/') == "favicon.ico"@);
    }
    assert(favicon_url(html, base) =~= strip_trailing(base, '/') + "/favicon.ico"@) by {
        assert("/"@ + "favicon.ico"@ =~= "/favicon.ico"@);
    }
}

/// What stands after the first `BODY_LIMIT` characters of a body plays no
/// part: a tag placed there is never found.
pub proof fn law_text_beyond_the_limit_is_ignored(
    head: Seq<char>,
    tail: Seq<char>,
    url: Seq<char>,
)
    requires
        head.len() >= BODY_LIMIT,
    ensures
        page_metadata(head + tail, url) == page_metadata(head, url),
{
    assert(head_of(head + tail) =~= head_of(head));
}

/// An answer whose status is not one of success ends the request with the
/// failure of that status; no metadata comes of it.
pub proof fn law_bad_status_fails(url: Seq<char>, status: u16, step: FetchStep)
    requires
        !is_success(status),
        step_after(url, FetchEvent::Responded(status), step),
    ensures
        step == FetchStep::Failed(FetchError::Status(status)),
        !(step is Resolved),
{
}

/// Reading the same body for the same URL twice gives the same metadata,
/// field by field.
pub proof fn law_same_page_same_metadata(
    first: OgMetadata,
    second: OgMetadata,
    body: Seq<char>,
    url: Seq<char>,
)
    requires
        first@ == page_metadata(body, url),
        second@ == page_metadata(body, url),
    ensures
        first@ == second@,
        first.title.deep_view() == second.title.deep_view(),
        first.description.deep_view() == second.description.deep_view(),
        first.image.deep_view() == second.image.deep_view(),
        first.site_name.deep_view() == second.site_name.deep_view(),
        first.favicon.deep_view() == second.favicon.deep_view(),
        first.url@ == second.url@,
{
}

/// Text without `&` holds no escape: decoding leaves it as it is.
pub proof fn law_decoding_keeps_text_without_ampersand(text: Seq<char>)
    requires
        forall|i: int| 0 <= i < text.len() ==> text[i] != '&',
    ensures
        decode_entities(text) == text,
{
    reveal_strlit("&amp;");
    reveal_strlit("&lt;");
    reveal_strlit("&gt;");
    reveal_strlit("&quot;");
    reveal_strlit("&#39;");
    reveal_strlit("&#x27;");
    reveal_strlit("&apos;");
    lemma_no_occurrence_without_first_char(text, "&amp;"@);
    lemma_replace_nothing(text, "&amp;"@, "&"@);
    lemma_no_occurrence_without_first_char(text, "&lt;"@);
    lemma_replace_nothing(text, "&lt;"@, "<"@);
    lemma_no_occurrence_without_first_char(text, "&gt;"@);
    lemma_replace_nothing(text, "&gt;"@, ">"@);
    lemma_no_occurrence_without_first_char(text, "&quot;"@);
    lemma_replace_nothing(text, "&quot;"@, "\""@);
    lemma_no_occurrence_without_first_char(text, "&#39;"@);
    lemma_replace_nothing(text, "&#39;"@, "'"@);
    lemma_no_occurrence_without_first_char(text, "&#x27;"@);
    lemma_replace_nothing(text, "&#x27;"@, "'"@);
    lemma_no_occurrence_without_first_char(text, "&apos;"@);
    lemma_replace_nothing(text, "&apos;"@, "'"@);
}

/// Where `pat` does not stand in `before`, stands at the start of `rest`,
/// and holds its first character only once, its first occurrence in
/// `before + rest` is at the start of `rest`.
proof fn lemma_first_occurrence_at_seam(before: Seq<char>, rest: Seq<char>, pat: Seq<char>)
    requires
        pat.len() > 0,
        !contains(before, pat),
        occurs_at(rest, pat, 0),
        forall|k: int| 0 < k < pat.len() ==> #[trigger] pat[k] != pat[0],
    ensures
        first_occurrence(before + rest, pat) == Some(before.len() as int),
{
    let text = before + rest;
    let n = pat.len() as int;
    let at = before.len() as int;
    assert(rest.subrange(0, n)[0] == pat[0]);
    assert(text.subrange(at, at + n) =~= rest.subrange(0, n));
    assert forall|j: int| 0 <= j < at implies !occurs_at(text, pat, j) by {
        if occurs_at(text, pat, j) {
            if j + n <= at {
                assert(before.subrange(j, j + n) =~= text.subrange(j, j + n));
                assert(occurs_at(before, pat, j));
            } else {
                let k = at - j;
                assert(text.subrange(j, j + n)[k] == text[at]);
                assert(pat[k] == pat[0]);
            }
        }
    }
    lemma_first_occurrence_is(text, pat, at);
}

/// The first occurrence of a single character.
proof fn lemma_first_occurrence_of_char(text: Seq<char>, pat: Seq<char>, k: int)
    requires
        pat.len() == 1,
        0 <= k < text.len(),
        text[k] == pat[0],
        forall|j: int| 0 <= j < k ==> text[j] != pat[0],
    ensures
        first_occurrence(text, pat) == Some(k),
{
    assert(text.subrange(k, k + 1) =~= pat);
    assert forall|j: int| 0 <= j < k implies !occurs_at(text, pat, j) by {
        if occurs_at(text, pat, j) {
            assert(text.subrange(j, j + 1)[0] == text[j]);
        }
    }
    lemma_first_occurrence_is(text, pat, k);
}

/// `<title` is first found where the first `<title>` begins.
proof fn lemma_title_open(before: Seq<char>, rest: Seq<char>)
    requires
        !contains(before, "<title"@),
    ensures
        first_occurrence(before + ("<title>"@ + rest), "<title"@) == Some(before.len() as int),
        first_occurrence("<title>"@ + rest, ">"@) == Some(6int),
{
    reveal_strlit("<title");
    reveal_strlit("<title>");
    reveal_strlit(">");
    let tag = "<title>"@ + rest;
    assert(tag.subrange(0, 6) =~= "<title"@);
    lemma_first_occurrence_at_seam(before, tag, "<title"@);
    lemma_first_occurrence_of_char(tag, ">"@, 6);
}

/// `</title>` is first found behind a text that does not hold it.
proof fn lemma_title_close(title: Seq<char>, after: Seq<char>)
    requires
        !contains(title, "</title>"@),
    ensures
        first_occurrence(title + ("</title>"@ + after), "</title>"@) == Some(title.len() as int),
{
    reveal_strlit("</title>");
    let closing = "</title>"@ + after;
    assert(closing.subrange(0, 8) =~= "</title>"@);
    lemma_first_occurrence_at_seam(title, closing, "</title>"@);
}

/// The title of a text that holds `<title>`, then `title`, then `</title>`,
/// with no `<title` before it.
proof fn lemma_title_text(before: Seq<char>, title: Seq<char>, after: Seq<char>)
    requires
        !contains(before, "<title"@),
        !contains(title, "</title>"@),
    ensures
        title_text(before + "<title>"@ + title + "</title>"@ + after) == if trim(title).len()
            > 0 {
            Some(decode_entities(trim(title)))
        } else {
            None
        },
{
    let html = before + "<title>"@ + title + "</title>"@ + after;
    let closing = "</title>"@ + after;
    let inner = title + closing;
    let tag = "<title>"@ + inner;
    let at = before.len() as int;
    assert("<title>"@.len() == 7) by {
        reveal_strlit("<title>");
    }
    assert(html =~= before + tag);
    lemma_title_open(before, inner);
    assert(html.skip(at) =~= tag);
    assert(html.skip(at + 6 + 1) =~= inner);
    lemma_title_close(title, after);
    assert(inner.take(title.len() as int) =~= title);
}

/// Where a page has no `og:title`, the text of its `<title>` is its title,
/// trimmed and with its escapes decoded. This is stated of a `<title>` that
/// is the first in the text, that closes inside the part that is read, and
/// whose text is not empty after trimming.
pub proof fn law_title_tag_is_the_fallback(
    before: Seq<char>,
    title: Seq<char>,
    after: Seq<char>,
    url: Seq<char>,
)
    requires
        before.len() + title.len() + 15 <= BODY_LIMIT,
        !contains(before, "<title"@),
        !contains(title, "</title>"@),
        trim(title).len() > 0,
        meta_content(
            head_of(before + "<title>"@ + title + "</title>"@ + after),
            "og:title"@,
        ) is None,
    ensures
        page_metadata(before + "<title>"@ + title + "</title>"@ + after, url).title == Some(
            decode_entities(trim(title)),
        ),
{
    reveal_strlit("<title>");
    reveal_strlit("</title>");
    let body = before + "<title>"@ + title + "</title>"@ + after;
    let fixed = before.len() + title.len() + 15;
    let kept = if body.len() > BODY_LIMIT {
        after.take(BODY_LIMIT - fixed)
    } else {
        after
    };
    assert(head_of(body) =~= before + "<title>"@ + title + "</title>"@ + kept);
    lemma_title_text(before, title, kept);
}

/// The text of a meta tag that gives the property `name` the content
/// `value`.
pub open spec fn meta_tag(name: Seq<char>, value: Seq<char>) -> Seq<char> {
    "<meta property=\""@ + name + "\" content=\""@ + value + "\">"@
}

/// No character of `text` is `c`.
pub open spec fn lacks(text: Seq<char>, c: char) -> bool {
    forall|i: int| 0 <= i < text.len() ==> text[i] != c
}

/// The characters of a meta tag, part by part.
proof fn lemma_meta_tag_shape(name: Seq<char>, value: Seq<char>)
    ensures
        ({
            let tag = meta_tag(name, value);
            let n = name.len() as int;
            let v = value.len() as int;
            &&& tag.len() == 29 + n + v
            &&& forall|k: int| 0 <= k < 16 ==> #[trigger] tag[k] == "<meta property=\""@[k]
            &&& forall|k: int| 16 <= k < 16 + n ==> #[trigger] tag[k] == name[k - 16]
            &&& forall|k: int|
                16 + n <= k < 27 + n ==> #[trigger] tag[k] == "\" content=\""@[k - 16 - n]
            &&& forall|k: int| 27 + n <= k < 27 + n + v ==> #[trigger] tag[k] == value[k - 27 - n]
            &&& tag[27 + n + v] == '"'
            &&& tag[28 + n + v] == '>'
        }),
{
    reveal_strlit("<meta property=\"");
    reveal_strlit("\" content=\"");
    reveal_strlit("\">");
}

/// A meta tag is `<meta `, the marker of its property, ` content="`, its
/// value, and `">`.
proof fn lemma_meta_tag_parts(name: Seq<char>, value: Seq<char>)
    ensures
        meta_tag(name, value) == "<meta "@ + property_marker(name) + " content=\""@ + value
            + "\">"@,
        property_marker(name).len() == 11 + name.len(),
        lacks(name, '<') ==> lacks(property_marker(name), '<'),
        property_marker(name)[0] == 'p',
{
    reveal_strlit("<meta property=\"");
    reveal_strlit("\" content=\"");
    reveal_strlit("\">");
    reveal_strlit("<meta ");
    reveal_strlit("property=\"");
    reveal_strlit("\"");
    reveal_strlit(" content=\"");
    assert(meta_tag(name, value) =~= "<meta "@ + property_marker(name) + " content=\""@ + value
        + "\">"@);
}

/// Where `pat` does not stand in `before`, holds no first character of
/// `opener`, and begins with a character that `opener` does not hold, its
/// first occurrence in `before + opener + pat + rest` is behind `opener`.
proof fn lemma_first_occurrence_behind(
    before: Seq<char>,
    opener: Seq<char>,
    pat: Seq<char>,
    rest: Seq<char>,
)
    requires
        opener.len() > 0,
        pat.len() > 0,
        !contains(before, pat),
        lacks(pat, opener[0]),
        lacks(opener, pat[0]),
    ensures
        first_occurrence(before + (opener + (pat + rest)), pat) == Some(
            (before.len() + opener.len()) as int,
        ),
{
    let text = before + (opener + (pat + rest));
    let b = before.len() as int;
    let at = b + opener.len();
    let m = pat.len() as int;
    assert(text.subrange(at, at + m) =~= pat);
    assert forall|j: int| 0 <= j < at implies !occurs_at(text, pat, j) by {
        if occurs_at(text, pat, j) {
            if j + m <= b {
                assert(before.subrange(j, j + m) =~= text.subrange(j, j + m));
                assert(occurs_at(before, pat, j));
            } else if j <= b {
                assert(text.subrange(j, j + m)[b - j] == text[b]);
                assert(text[b] == opener[0]);
                assert(pat[b - j] == opener[0]);
            } else {
                assert(text.subrange(j, j + m)[0] == text[j]);
                assert(text[j] == opener[j - b]);
            }
        }
    }
    lemma_first_occurrence_is(text, pat, at);
}

/// The marker of a meta tag is first found in that tag, where no text
/// before the tag holds it.
proof fn lemma_marker_first(before: Seq<char>, name: Seq<char>, value: Seq<char>, after: Seq<char>)
    requires
        !contains(before, property_marker(name)),
        lacks(name, '<'),
    ensures
        first_occurrence(before + meta_tag(name, value) + after, property_marker(name)) == Some(
            before.len() + 6int,
        ),
{
    let marker = property_marker(name);
    let rest = " content=\""@ + value + "\">"@ + after;
    lemma_meta_tag_parts(name, value);
    assert(before + meta_tag(name, value) + after =~= before + ("<meta "@ + (marker + rest)));
    assert("<meta "@.len() == 6 && "<meta "@[0] == '<' && lacks("<meta "@, 'p')) by {
        reveal_strlit("<meta ");
    }
    lemma_first_occurrence_behind(before, "<meta "@, marker, rest);
}

/// An opener that stands one character before the marker is the last one
/// in the window before the marker.
proof fn lemma_opener_last(html: Seq<char>, from: int, pos: int, opener: Seq<char>)
    requires
        opener.len() >= 2,
        opener[1] != opener[0],
        0 <= from <= pos - opener.len() - 1,
        pos <= html.len(),
        html.subrange(pos - opener.len() - 1, pos - 1) == opener,
    ensures
        last_occurrence(html.subrange(from, pos), opener) == Some(pos - opener.len() - 1 - from),
{
    let n = opener.len() as int;
    let part = html.subrange(from, pos);
    let at = pos - n - 1 - from;
    assert(part.subrange(at, at + n) =~= html.subrange(pos - n - 1, pos - 1));
    assert forall|j: int| at < j implies !occurs_at(part, opener, j) by {
        if occurs_at(part, opener, j) {
            assert(part.subrange(j, j + n)[0] == part[j]);
            assert(html.subrange(pos - n - 1, pos - 1)[1] == html[pos - n]);
        }
    }
    lemma_last_occurrence_is(part, opener, at);
}

/// The first `>` of a meta tag whose name and value hold none is its last
/// character.
proof fn lemma_tag_close(name: Seq<char>, value: Seq<char>, rest: Seq<char>)
    requires
        lacks(name, '>'),
        lacks(value, '>'),
        lacks(value, '"'),
    ensures
        first_occurrence(meta_tag(name, value) + rest, ">"@) == Some(
            meta_tag(name, value).len() - 1,
        ),
{
    let tag = meta_tag(name, value);
    let text = tag + rest;
    lemma_meta_tag_shape(name, value);
    reveal_strlit("<meta property=\"");
    reveal_strlit("\" content=\"");
    reveal_strlit(">");
    assert forall|j: int| 0 <= j < tag.len() - 1 implies text[j] != '>' by {
        assert(text[j] == tag[j]);
    }
    assert(text[tag.len() - 1] == tag[tag.len() - 1]);
    lemma_first_occurrence_of_char(text, ">"@, tag.len() - 1);
}

/// The first `content="` of a meta tag is that of its own attribute.
proof fn lemma_content_attr(name: Seq<char>, value: Seq<char>)
    requires
        lacks(name, '"'),
        lacks(name, '='),
    ensures
        first_occurrence(meta_tag(name, value), "content=\""@) == Some(18int + name.len()),
{
    let tag = meta_tag(name, value);
    let attr = "content=\""@;
    let n = name.len() as int;
    let at = 18 + n;
    lemma_meta_tag_shape(name, value);
    reveal_strlit("<meta property=\"");
    reveal_strlit("\" content=\"");
    reveal_strlit("content=\"");
    assert(tag.subrange(at, at + 9) =~= attr);
    assert forall|j: int| 0 <= j < at implies !occurs_at(tag, attr, j) by {
        if occurs_at(tag, attr, j) {
            let found = tag.subrange(j, j + 9);
            assert(found[0] == tag[j]);
            assert(found[7] == tag[j + 7]);
            assert(found[8] == tag[j + 8]);
            // The quote that ends the match is the one before the name or
            // the one behind it; neither has `content=` before it.
            assert(tag[j + 8] == '"');
            assert(j + 8 == 15 || j + 8 == 16 + n);
        }
    }
    lemma_first_occurrence_is(tag, attr, at);
}

/// The value of a meta tag ends at the first `"` behind `content="`.
proof fn lemma_value_end(name: Seq<char>, value: Seq<char>)
    requires
        lacks(value, '"'),
    ensures
        meta_tag(name, value).skip(27 + name.len() as int) == value + "\">"@,
        first_occurrence(value + "\">"@, "\""@) == Some(value.len() as int),
        (value + "\">"@).take(value.len() as int) == value,
{
    reveal_strlit("<meta property=\"");
    reveal_strlit("\" content=\"");
    reveal_strlit("\">");
    reveal_strlit("\"");
    let tail = value + "\">"@;
    assert(meta_tag(name, value).skip(27 + name.len() as int) =~= tail);
    lemma_first_occurrence_of_char(tail, "\""@, value.len() as int);
    assert(tail.take(value.len() as int) =~= value);
}

/// A meta tag whose marker is the first of its property in the text is
/// found, and its content is returned with the escapes decoded. This is
/// stated of a tag written `<meta property="name" content="value">` whose
/// value is not empty and holds neither `"` nor `>`, whose name holds none
/// of `"`, `<`, `>` and `=`, and which closes inside the window of
/// `META_AFTER` characters that begins at its marker.
pub proof fn law_meta_tag_is_found(
    before: Seq<char>,
    name: Seq<char>,
    value: Seq<char>,
    after: Seq<char>,
)
    requires
        !contains(before, property_marker(name)),
        lacks(name, '"') && lacks(name, '<') && lacks(name, '>') && lacks(name, '='),
        lacks(value, '"') && lacks(value, '>'),
        value.len() > 0,
        property_marker(name).len() + " content=\""@.len() + value.len() + "\">"@.len()
            <= META_AFTER,
    ensures
        meta_content(before + meta_tag(name, value) + after, name) == Some(
            decode_entities(value),
        ),
{
    let tag = meta_tag(name, value);
    let html = before + tag + after;
    let marker = property_marker(name);
    let b = before.len() as int;
    let n = name.len() as int;
    let v = value.len() as int;
    let pos = b + 6;
    let from = window_start(pos, META_BEFORE as int);
    let to = window_end(pos, META_AFTER as int, html.len() as int);
    lemma_meta_tag_parts(name, value);
    assert(tag.len() == 29 + n + v && " content=\""@.len() == 10 && "\">"@.len() == 2) by {
        lemma_meta_tag_shape(name, value);
        reveal_strlit(" content=\"");
        reveal_strlit("\">");
    }
    lemma_marker_first(before, name, value, after);
    assert("<meta"@.len() == 5 && "<meta"@[0] == '<' && "<meta"@[1] == 'm') by {
        reveal_strlit("<meta");
    }
    assert(html.subrange(pos - 6, pos - 1) =~= "<meta"@) by {
        reveal_strlit("<meta");
        lemma_meta_tag_shape(name, value);
        reveal_strlit("<meta property=\"");
        assert forall|k: int| 0 <= k < 5 implies html.subrange(pos - 6, pos - 1)[k] == "<meta"@[k] by {
            assert(html[b + k] == tag[k]);
        }
    }
    lemma_opener_last(html, from, pos, "<meta"@);
    let rest = html.subrange(b, to);
    assert(b + tag.len() <= to);
    assert(rest =~= tag + after.take(to - b - tag.len()));
    lemma_tag_close(name, value, after.take(to - b - tag.len()));
    assert(rest.take(tag.len() as int) =~= tag);
    assert(enclosing_tag(html, pos, "<meta"@, META_BEFORE as int, META_AFTER as int, true)
        == Some(tag));
    lemma_content_attr(name, value);
    assert("content=\""@.len() == 9) by {
        reveal_strlit("content=\"");
    }
    lemma_value_end(name, value);
    assert(quoted_value(tag, "content=\""@) == Some(value));
}

/// Stripping slashes from the end of a text that begins with `http` leaves
/// a text that begins with `http`.
proof fn lemma_strip_keeps_scheme(text: Seq<char>)
    requires
        starts_with(text, "http"@),
    ensures
        starts_with(strip_trailing(text, '/'), "http"@),
    decreases text.len(),
{
    reveal_strlit("http");
    if text.len() > 0 && text.last() == '/' {
        assert(text.subrange(0, 4)[3] == text[3]);
        let shorter = text.drop_last();
        assert(shorter.subrange(0, 4) =~= text.subrange(0, 4));
        lemma_strip_keeps_scheme(shorter);
    }
}

/// The origin of a URL that begins with `http` begins with `http`.
proof fn lemma_origin_keeps_scheme(url: Seq<char>)
    requires
        starts_with(url, "http"@),
    ensures
        starts_with(origin_of(url), "http"@),
{
    reveal_strlit("http");
    reveal_strlit("://");
    lemma_first_occurrence(url, "://"@);
    if let Some(s) = first_occurrence(url, "://"@) {
        assert(url.subrange(s, s + 3)[0] == url[s]);
        assert(url.subrange(0, 4)[0] == url[0]);
        assert(s >= 1);
        let rest = url.skip(s + 3);
        lemma_first_occurrence(rest, "/"@);
        if let Some(p) = first_occurrence(rest, "/"@) {
            assert(url.take(s + 3 + p).subrange(0, 4) =~= url.subrange(0, 4));
        }
    }
}

/// An href made absolute against a base that begins with `http` begins
/// with `http`.
proof fn lemma_absolute_has_scheme(href: Seq<char>, base: Seq<char>)
    requires
        starts_with(base, "http"@),
    ensures
        starts_with(absolutize(href, base), "http"@),
{
    reveal_strlit("http");
    reveal_strlit("https:");
    if starts_with(href, "http"@) {
    } else if starts_with(href, "//"@) {
        assert(("https:"@ + href).subrange(0, 4) =~= "http"@);
    } else {
        lemma_strip_keeps_scheme(base);
        let stem = strip_trailing(base, '/');
        let joined = join_path(base, href);
        assert(joined.subrange(0, 4) =~= stem.subrange(0, 4));
    }
}

/// Every URL in the metadata of a page that was asked for under an `http`
/// or `https` URL is absolute: the icon, and the image where there is one,
/// begin with `http`.
pub proof fn law_resolved_urls_are_absolute(body: Seq<char>, url: Seq<char>)
    requires
        starts_with(url, "http"@),
    ensures
        page_metadata(body, url).favicon matches Some(icon) && starts_with(icon, "http"@),
        page_metadata(body, url).image matches Some(image) ==> starts_with(image, "http"@),
{
    let html = head_of(body);
    let base = origin_of(url);
    lemma_origin_keeps_scheme(url);
    lemma_absolute_has_scheme(favicon_href(html), base);
    if let Some(href) = meta_content(html, "og:image"@) {
        lemma_absolute_has_scheme(href, base);
    }
}

/// An `href` that stands behind a link tag is not read as that tag's: a
/// link tag that holds the first `marker` of the text, closes inside the
/// window of `LINK_AFTER` characters that begins at the marker, and holds no
/// `href="` itself gives no href, whatever follows it. This is stated of a
/// tag written `<link ` + `marker` + `>`, for a marker that holds neither
/// `<` nor `>` and does not begin with a character of `<link `.
pub proof fn law_href_behind_the_link_tag_is_not_read(
    before: Seq<char>,
    marker: Seq<char>,
    after: Seq<char>,
)
    requires
        marker.len() > 0,
        !contains(before, marker),
        lacks(marker, '<') && lacks(marker, '>'),
        lacks("<link "@, marker[0]),
        !contains("<link "@ + marker + ">"@, "href=\""@),
        marker.len() < LINK_AFTER,
    ensures
        link_href(before + "<link "@ + marker + ">"@ + after, marker) is None,
{
    reveal_strlit("<link ");
    reveal_strlit("<link");
    reveal_strlit(">");
    let tag = "<link "@ + marker + ">"@;
    let html = before + "<link "@ + marker + ">"@ + after;
    let b = before.len() as int;
    let m = marker.len() as int;
    let pos = b + 6;
    let from = window_start(pos, LINK_BEFORE as int);
    let to = window_end(pos, LINK_AFTER as int, html.len() as int);
    assert(html =~= before + ("<link "@ + (marker + (">"@ + after))));
    lemma_first_occurrence_behind(before, "<link "@, marker, ">"@ + after);
    assert(html.subrange(pos - 6, pos - 1) =~= "<link"@);
    lemma_opener_last(html, from, pos, "<link"@);
    let rest = html.subrange(b, to);
    assert(b + tag.len() <= to);
    assert forall|j: int| 0 <= j < 6 + m implies rest[j] != '>' by {
        if j < 6 {
            assert(rest[j] == "<link "@[j]);
        } else {
            assert(rest[j] == marker[j - 6]);
        }
    }
    lemma_first_occurrence_of_char(rest, ">"@, 6 + m);
    assert(rest.take(6 + m + 1) =~= tag);
    assert(enclosing_tag(html, pos, "<link"@, LINK_BEFORE as int, LINK_AFTER as int, false)
        == Some(tag));
    lemma_first_occurrence(tag, "href=\""@);
}

/// A pattern does not stand in a text that lacks its first character.
proof fn lemma_no_occurrence_without_first_char(text: Seq<char>, pat: Seq<char>)
    requires
        pat.len() > 0,
        forall|i: int| 0 <= i < text.len() ==> text[i] != pat[0],
    ensures
        forall|i: int| !occurs_at(text, pat, i),
{
    assert forall|i: int| !occurs_at(text, pat, i) by {
        if occurs_at(text, pat, i) {
            assert(text.subrange(i, i + pat.len())[0] == pat[0]);
        }
    }
}

} // verus!
