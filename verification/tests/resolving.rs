use link_preview::fetch::{FetchError, FetchEvent, FetchPolicy, FetchStep};
use link_preview::fetch::{decimal_chars, next_step, status_is_success, status_line};
use link_preview::resolver::{leading_chars, resolve_metadata, OgMetadata, BODY_LIMIT};
use link_preview::text::{find_in, is_space, rfind_in, to_chars, to_string, trim_span};
use link_preview::url::{absolutize_url, get_base_url};

fn some(s: &str) -> Option<String> {
    Some(s.to_string())
}

#[test]
fn base_url_is_scheme_and_host() {
    assert_eq!(get_base_url("https://ex.com/page"), "https://ex.com");
    assert_eq!(get_base_url("https://ex.com/a/b?c=d"), "https://ex.com");
    assert_eq!(get_base_url("https://ex.com"), "https://ex.com");
    assert_eq!(get_base_url("https://ex.com/"), "https://ex.com");
    assert_eq!(get_base_url("ex.com/page"), "ex.com/page");
    assert_eq!(get_base_url(""), "");
    assert_eq!(get_base_url("http://"), "http://");
    assert_eq!(get_base_url("http:///x"), "http://");
    assert_eq!(get_base_url("a/b://c/d"), "a/b://c");
}

#[test]
fn relative_image_href_is_resolved() {
    let base = get_base_url("https://ex.com/page");
    assert_eq!(absolutize_url("/img/x.png", &base), "https://ex.com/img/x.png");
}

#[test]
fn scheme_relative_href_gets_https() {
    assert_eq!(absolutize_url("//cdn.ex.com/f.ico", "https://ex.com"), "https://cdn.ex.com/f.ico");
}

#[test]
fn absolutize_forms() {
    assert_eq!(absolutize_url("http://a/b", "https://ex.com"), "http://a/b");
    assert_eq!(absolutize_url("https://a/b", "https://ex.com"), "https://a/b");
    assert_eq!(absolutize_url("httpfoo", "https://ex.com"), "httpfoo");
    assert_eq!(absolutize_url("img/x.png", "https://ex.com"), "https://ex.com/img/x.png");
    assert_eq!(absolutize_url("img/x.png", "https://ex.com///"), "https://ex.com/img/x.png");
    assert_eq!(absolutize_url("", "https://ex.com"), "https://ex.com/");
    assert_eq!(absolutize_url("/", "https://ex.com"), "https://ex.com/");
    assert_eq!(absolutize_url("htt", "b"), "b/htt");
    assert_eq!(absolutize_url("x", "///"), "/x");
}

#[test]
fn metadata_is_assembled() {
    let html = "<html><head><title>Fallback</title>\
        <meta property=\"og:title\" content=\"Title\">\
        <meta property=\"og:description\" content=\"Desc &lt;1&gt;\">\
        <meta property=\"og:image\" content=\"/a.png\">\
        <meta property=\"og:site_name\" content=\"Site\">\
        <link rel=\"icon\" href=\"//cdn.ex.com/f.ico\"></head></html>";
    let m = resolve_metadata(html, "https://ex.com/page");
    let expected = OgMetadata {
        title: some("Title"),
        description: some("Desc <1>"),
        image: some("https://ex.com/a.png"),
        site_name: some("Site"),
        favicon: some("https://cdn.ex.com/f.ico"),
        url: "https://ex.com/page".to_string(),
    };
    assert_eq!(m, expected);
}

#[test]
fn title_falls_back_to_title_tag() {
    let m = resolve_metadata("<head><title> Y &amp; Z </title></head>", "https://ex.com/page");
    assert_eq!(m.title, some("Y & Z"));
}

#[test]
fn page_with_neither_has_no_title() {
    let m = resolve_metadata("<html><body>nothing</body></html>", "https://ex.com/page");
    assert_eq!(m.title, None);
    assert_eq!(m.description, None);
    assert_eq!(m.image, None);
    assert_eq!(m.site_name, None);
    assert_eq!(m.favicon, some("https://ex.com/favicon.ico"));
    assert_eq!(m.url, "https://ex.com/page");
}

#[test]
fn extraction_is_repeatable() {
    let html = "<title>T</title><meta property=\"og:image\" content=\"i.png\">";
    let first = resolve_metadata(html, "https://ex.com/p");
    let second = resolve_metadata(html, "https://ex.com/p");
    assert_eq!(first, second);
}

#[test]
fn body_is_cut_at_the_limit() {
    assert_eq!(BODY_LIMIT, 20_000);
    let tag = "<meta property=\"og:title\" content=\"Late\">";
    let mut body = "x".repeat(21_000);
    body.push_str(tag);
    body.push_str(&"y".repeat(25_000 - body.len()));
    assert_eq!(body.len(), 25_000);
    assert_eq!(resolve_metadata(&body, "https://ex.com").title, None);
    let head: String = body.chars().take(20_000).collect();
    assert_eq!(resolve_metadata(&body, "https://ex.com"), resolve_metadata(&head, "https://ex.com"));
    // A tag that ends exactly at the limit is still found.
    let mut body = "x".repeat(20_000 - tag.len());
    body.push_str(tag);
    body.push_str("zzz");
    assert_eq!(resolve_metadata(&body, "https://ex.com").title, some("Late"));
    // One character further, its end is cut off.
    let mut body = "x".repeat(20_001 - tag.len());
    body.push_str(tag);
    assert_eq!(resolve_metadata(&body, "https://ex.com").title, None);
}

#[test]
fn limit_counts_characters() {
    let tag = "<meta property=\"og:title\" content=\"Sp\u{00E4}t\">";
    let mut body = "\u{00E4}".repeat(19_000);
    body.push_str(tag);
    assert!(body.len() > 20_000);
    assert_eq!(resolve_metadata(&body, "https://ex.com").title, some("Sp\u{00E4}t"));
    assert_eq!(leading_chars("\u{00E4}bc", 2), vec!['\u{00E4}', 'b']);
    assert_eq!(leading_chars("ab", 5), vec!['a', 'b']);
    assert_eq!(leading_chars("ab", 0), Vec::<char>::new());
}

#[test]
fn fetch_policy_values() {
    let p = FetchPolicy::standard();
    assert_eq!(p.timeout_secs, 5);
    assert_eq!(p.max_redirects, 5);
    assert_eq!(p.user_agent, "Mozilla/5.0 (compatible; TallyApp/1.0)");
    assert_eq!(p.accept, "text/html");
}

#[test]
fn not_found_fails_with_status() {
    let step = next_step("https://ex.com", FetchEvent::Responded(404));
    assert_eq!(step, FetchStep::Failed(FetchError::Status(404)));
    let message = FetchError::Status(404).message();
    assert!(message.contains("HTTP 404"));
    assert_eq!(message, "HTTP 404 Not Found");
}

#[test]
fn status_classes() {
    assert!(status_is_success(200));
    assert!(status_is_success(204));
    assert!(status_is_success(299));
    assert!(!status_is_success(199));
    assert!(!status_is_success(300));
    assert!(!status_is_success(0));
    assert_eq!(next_step("u", FetchEvent::Responded(200)), FetchStep::ReadBody);
    assert_eq!(next_step("u", FetchEvent::Responded(301)), FetchStep::Failed(FetchError::Status(301)));
    assert_eq!(next_step("u", FetchEvent::Responded(500)), FetchStep::Failed(FetchError::Status(500)));
}

#[test]
fn status_lines() {
    assert_eq!(status_line(500), "500 Internal Server Error");
    assert_eq!(status_line(200), "200 OK");
    assert_eq!(status_line(799), "799 <unknown status code>");
    assert_eq!(status_line(99), "99");
    assert_eq!(status_line(1000), "1000");
    assert_eq!(status_line(0), "0");
    assert_eq!(status_line(65535), "65535");
    assert_eq!(to_string(&decimal_chars(4070)), "4070");
    for code in 100u16..1000 {
        assert!(status_line(code).starts_with(&code.to_string()));
    }
}

#[test]
fn failures_are_worded() {
    assert_eq!(FetchError::Network("timed out".to_string()).message(), "Netzwerkfehler: timed out");
    assert_eq!(FetchError::Read("bad utf-8".to_string()).message(), "Fehler beim Lesen: bad utf-8");
    assert_eq!(FetchError::Client("no tls".to_string()).message(), "Client error: no tls");
    assert_eq!(FetchError::Status(503).message(), "HTTP 503 Service Unavailable");
}

#[test]
fn events_lead_to_steps() {
    assert_eq!(
        next_step("u", FetchEvent::SendFailed("dns".to_string())),
        FetchStep::Failed(FetchError::Network("dns".to_string()))
    );
    assert_eq!(
        next_step("u", FetchEvent::ReadFailed("eof".to_string())),
        FetchStep::Failed(FetchError::Read("eof".to_string()))
    );
    assert_eq!(
        next_step("u", FetchEvent::ClientFailed("x".to_string())),
        FetchStep::Failed(FetchError::Client("x".to_string()))
    );
    let body = "<title>T</title>".to_string();
    assert_eq!(
        next_step("https://ex.com/p", FetchEvent::BodyRead(body.clone())),
        FetchStep::Resolved(resolve_metadata(&body, "https://ex.com/p"))
    );
}

#[test]
fn search_primitives() {
    let text = to_chars("abcabc");
    let pat = to_chars("bc");
    assert_eq!(find_in(&text, &pat, 0, 6), Some(1));
    assert_eq!(rfind_in(&text, &pat, 0, 6), Some(4));
    assert_eq!(find_in(&text, &pat, 2, 6), Some(4));
    assert_eq!(rfind_in(&text, &pat, 0, 5), Some(1));
    assert_eq!(find_in(&text, &pat, 2, 5), None);
    assert_eq!(rfind_in(&text, &pat, 5, 6), None);
    let empty: Vec<char> = Vec::new();
    assert_eq!(find_in(&text, &empty, 2, 5), Some(2));
    assert_eq!(rfind_in(&text, &empty, 2, 5), Some(5));
    assert_eq!(find_in(&empty, &pat, 0, 0), None);
    assert_eq!(trim_span(&to_chars("  a b \n"), 0, 7), (2, 5));
    assert_eq!(trim_span(&to_chars("   "), 0, 3), (3, 3));
}

#[test]
fn white_space_is_that_of_unicode() {
    for n in 0u32..=0x10FFFF {
        if let Some(c) = char::from_u32(n) {
            assert_eq!(is_space(c), c.is_whitespace());
        }
    }
}
