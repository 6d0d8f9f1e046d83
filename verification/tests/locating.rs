use link_preview::entities::html_escape_decode;
use link_preview::locator::{extract_og, extract_title};
use link_preview::resolver::extract_favicon;

fn some(s: &str) -> Option<String> {
    Some(s.to_string())
}

#[test]
fn og_title_is_found_and_decoded() {
    let html = "<html><head><meta property=\"og:title\" content=\"Hello &amp; welcome\"></head></html>";
    assert_eq!(extract_og(html, "og:title"), some("Hello & welcome"));
}

#[test]
fn og_content_may_stand_before_property() {
    let html = "<meta content=\"First\" property=\"og:title\">";
    assert_eq!(extract_og(html, "og:title"), some("First"));
}

#[test]
fn og_missing_marker_gives_none() {
    assert_eq!(extract_og("<meta property=\"og:image\" content=\"x\">", "og:title"), None);
    assert_eq!(extract_og("", "og:title"), None);
}

#[test]
fn og_empty_content_gives_none() {
    assert_eq!(extract_og("<meta property=\"og:title\" content=\"\">", "og:title"), None);
}

#[test]
fn og_marker_without_meta_tag_gives_none() {
    assert_eq!(extract_og("<div property=\"og:title\" content=\"x\">", "og:title"), None);
}

#[test]
fn og_tag_without_content_gives_none() {
    assert_eq!(extract_og("<meta property=\"og:title\">", "og:title"), None);
}

#[test]
fn og_unclosed_tag_gives_none() {
    assert_eq!(extract_og("<meta property=\"og:title\" content=\"x\"", "og:title"), None);
}

#[test]
fn og_unterminated_value_gives_none() {
    assert_eq!(extract_og("<meta property=\"og:title\" content=\"x>", "og:title"), None);
}

#[test]
fn og_takes_the_tag_before_the_marker_not_a_later_one() {
    let html = "<meta property=\"og:title\" content=\"A\"><meta property=\"og:description\" content=\"B\">";
    assert_eq!(extract_og(html, "og:title"), some("A"));
    assert_eq!(extract_og(html, "og:description"), some("B"));
}

#[test]
fn og_first_marker_wins() {
    let html = "<meta property=\"og:title\" content=\"One\"> <meta property=\"og:title\" content=\"Two\">";
    assert_eq!(extract_og(html, "og:title"), some("One"));
}

#[test]
fn og_tag_start_at_the_edge_of_the_window() {
    // `<meta` begins exactly 200 characters before the marker.
    let filler = "x".repeat(200 - "<meta content=\"v\" data-x=\"".len() - 2);
    let html = format!("<meta content=\"v\" data-x=\"{}\" property=\"og:title\">", filler);
    assert_eq!(html.find("property=").unwrap(), 200);
    assert_eq!(extract_og(&html, "og:title"), some("v"));
}

#[test]
fn og_tag_start_beyond_the_window_gives_none() {
    let filler = "x".repeat(200 - "<meta content=\"v\" data-x=\"".len() - 1);
    let html = format!("<meta content=\"v\" data-x=\"{}\" property=\"og:title\">", filler);
    assert_eq!(html.find("property=").unwrap(), 201);
    assert_eq!(extract_og(&html, "og:title"), None);
}

#[test]
fn og_value_that_ends_at_the_edge_of_the_window() {
    // marker (19) + ` content="` (10) + value + `">` (2) is 300 in all
    let value = "v".repeat(269);
    let html = format!("<meta property=\"og:title\" content=\"{}\">", value);
    assert_eq!(extract_og(&html, "og:title"), Some(value));
}

#[test]
fn og_value_that_passes_the_edge_of_the_window_gives_none() {
    let value = "v".repeat(270);
    let html = format!("<meta property=\"og:title\" content=\"{}\">", value);
    assert_eq!(extract_og(&html, "og:title"), None);
}

#[test]
fn og_window_counts_characters_not_bytes() {
    // 150 characters of three bytes each stand before the marker's tag.
    let filler = "\u{20AC}".repeat(150);
    let html = format!("{}<meta content=\"Preis 5 \u{20AC}\" property=\"og:title\">", filler);
    assert_eq!(extract_og(&html, "og:title"), some("Preis 5 \u{20AC}"));
    let value = "\u{00E9}".repeat(269);
    let html = format!("<meta property=\"og:title\" content=\"{}\">", value);
    assert_eq!(extract_og(&html, "og:title"), Some(value));
}

#[test]
fn title_tag_is_trimmed_and_decoded() {
    let html = "<head><title lang=\"en\">\n  Tom &amp; Jerry \t</title></head>";
    assert_eq!(extract_title(html), some("Tom & Jerry"));
}

#[test]
fn title_tag_edge_cases() {
    assert_eq!(extract_title("<title>  \n </title>"), None);
    assert_eq!(extract_title("<title></title>"), None);
    assert_eq!(extract_title("<title>open"), None);
    assert_eq!(extract_title("<title"), None);
    assert_eq!(extract_title("no tags"), None);
    assert_eq!(extract_title("<title>A</title><title>B</title>"), some("A"));
    assert_eq!(extract_title("<title>\u{00A0}\u{3000}Caf\u{00E9}\u{2003}</title>"), some("Caf\u{00E9}"));
}

#[test]
fn favicon_priority_is_by_kind_not_by_position() {
    let html = "<link rel=\"apple-touch-icon\" href=\"/apple.png\"><link rel=\"shortcut icon\" href=\"/short.ico\"><link rel=\"icon\" href=\"/icon.png\">";
    assert_eq!(extract_favicon(html, "https://ex.com"), some("https://ex.com/icon.png"));
    let html = "<link rel=\"apple-touch-icon\" href=\"/apple.png\"><link rel=\"shortcut icon\" href=\"/short.ico\">";
    assert_eq!(extract_favicon(html, "https://ex.com"), some("https://ex.com/short.ico"));
    let html = "<link rel=\"apple-touch-icon\" href=\"/apple.png\">";
    assert_eq!(extract_favicon(html, "https://ex.com"), some("https://ex.com/apple.png"));
}

#[test]
fn favicon_href_forms() {
    assert_eq!(
        extract_favicon("<link rel=\"icon\" href=\"https://cdn.ex.com/f.ico\">", "https://ex.com"),
        some("https://cdn.ex.com/f.ico")
    );
    assert_eq!(
        extract_favicon("<link rel=\"icon\" href=\"//cdn.ex.com/f.ico\">", "https://ex.com"),
        some("https://cdn.ex.com/f.ico")
    );
    assert_eq!(
        extract_favicon("<link href=\"img/f.ico\" rel=\"icon\">", "https://ex.com/"),
        some("https://ex.com/img/f.ico")
    );
    assert_eq!(extract_favicon("<link rel=\"icon\" href=\"\">", "https://ex.com"), some("https://ex.com/"));
}

#[test]
fn favicon_falls_back_to_origin() {
    assert_eq!(extract_favicon("<html></html>", "https://ex.com"), some("https://ex.com/favicon.ico"));
    assert_eq!(extract_favicon("", "https://ex.com//"), some("https://ex.com/favicon.ico"));
    assert_eq!(extract_favicon("", ""), some("/favicon.ico"));
}

#[test]
fn favicon_marker_without_usable_tag_tries_the_next_kind() {
    let html = "<a rel=\"icon\">x</a><link rel=\"shortcut icon\" href=\"/s.ico\">";
    assert_eq!(extract_favicon(html, "https://ex.com"), some("https://ex.com/s.ico"));
    let html = "<link rel=\"icon\">";
    assert_eq!(extract_favicon(html, "https://ex.com"), some("https://ex.com/favicon.ico"));
}

#[test]
fn favicon_href_behind_the_link_tag_is_not_read() {
    let html = "<link rel=\"icon\"><a href=\"https://ex.com/x\">";
    assert_eq!(extract_favicon(html, "https://ex.com"), some("https://ex.com/favicon.ico"));
    let html = "<link rel=\"icon\"><link rel=\"shortcut icon\" href=\"/s.ico\">";
    assert_eq!(extract_favicon(html, "https://ex.com"), some("https://ex.com/s.ico"));
    let html = "<link rel=\"icon\" href=\"/own.ico\"><a href=\"/other\">";
    assert_eq!(extract_favicon(html, "https://ex.com"), some("https://ex.com/own.ico"));
}

#[test]
fn favicon_link_tag_that_does_not_close_is_read_to_the_window_end() {
    let html = "<link rel=\"icon\" href=\"/x.ico\"";
    assert_eq!(extract_favicon(html, "https://ex.com"), some("https://ex.com/x.ico"));
    let html = "<link rel=\"icon\" href=\"/x.ico\" sizes=\"16x16\"";
    assert_eq!(extract_favicon(html, "https://ex.com"), some("https://ex.com/x.ico"));
}

#[test]
fn favicon_href_is_read_up_to_the_window_end() {
    // The href's closing quote lies 100 characters or more after the marker.
    let long = "a".repeat(100);
    let html = format!("<link rel=\"icon\" href=\"/{}\">", long);
    assert_eq!(extract_favicon(&html, "https://ex.com"), some("https://ex.com/favicon.ico"));
    let short = "a".repeat(75);
    let html = format!("<link rel=\"icon\" href=\"/{}\">", short);
    assert_eq!(extract_favicon(&html, "https://ex.com"), Some(format!("https://ex.com/{}", short)));
}

#[test]
fn entity_decoding_leaves_unknown_escapes() {
    assert_eq!(html_escape_decode("Caf&eacute; &amp; Bar"), "Caf&eacute; & Bar");
}

#[test]
fn entity_decoding_of_each_escape() {
    assert_eq!(html_escape_decode("&amp;"), "&");
    assert_eq!(html_escape_decode("&lt;"), "<");
    assert_eq!(html_escape_decode("&gt;"), ">");
    assert_eq!(html_escape_decode("&quot;"), "\"");
    assert_eq!(html_escape_decode("&#39;"), "'");
    assert_eq!(html_escape_decode("&#x27;"), "'");
    assert_eq!(html_escape_decode("&apos;"), "'");
    assert_eq!(html_escape_decode("a&lt;b&gt;c&quot;d&#39;e"), "a<b>c\"d'e");
}

#[test]
fn entity_decoding_runs_pass_after_pass() {
    assert_eq!(html_escape_decode("&amp;lt;"), "<");
    assert_eq!(html_escape_decode("&amp;amp;"), "&amp;");
    assert_eq!(html_escape_decode("&&amp;amp;"), "&&amp;");
    assert_eq!(html_escape_decode("&#65; &#x41; &nbsp;"), "&#65; &#x41; &nbsp;");
    assert_eq!(html_escape_decode(""), "");
    assert_eq!(html_escape_decode("&am"), "&am");
    assert_eq!(html_escape_decode("plain \u{00FC}ber"), "plain \u{00FC}ber");
}

#[test]
fn entity_decoding_agrees_with_replace() {
    let inputs = ["&amp;&amp;", "x&ltx&lt;&lt;;", "&&&amp;;", "&apos;&#x27;&#39;", "&quot;&amp;quot;"];
    for input in inputs {
        let expected = input
            .replace("&amp;", "&")
            .replace("&lt;", "<")
            .replace("&gt;", ">")
            .replace("&quot;", "\"")
            .replace("&#39;", "'")
            .replace("&#x27;", "'")
            .replace("&apos;", "'");
        assert_eq!(html_escape_decode(input), expected);
    }
}
