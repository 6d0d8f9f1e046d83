use link_preview::feedback::{
    issue_endpoint, issue_filed, issue_labels, issue_refused, missing_title, parse_failure,
    prepare_issue, trimmed,
};

#[test]
fn labels_by_kind() {
    assert_eq!(issue_labels("feature"), vec!["enhancement", "from-app"]);
    assert_eq!(issue_labels("bug"), vec!["bug", "from-app"]);
    assert_eq!(issue_labels("feedback"), vec!["feedback", "from-app"]);
    assert_eq!(issue_labels("other"), vec!["from-app"]);
    assert_eq!(issue_labels(""), vec!["from-app"]);
    assert_eq!(issue_labels("Bug"), vec!["from-app"]);
}

#[test]
fn issue_is_prepared() {
    let issue = prepare_issue("bug", "  Crash \n", " It broke.\n", "1.2.3").unwrap();
    assert_eq!(issue.title, "Crash");
    assert_eq!(issue.body, "It broke.\n\n---\n*Gesendet aus Tally v1.2.3 via In-App Feedback*");
    assert_eq!(issue.labels, vec!["bug", "from-app"]);
}

#[test]
fn empty_title_is_not_sent() {
    let result = prepare_issue("bug", " \t\n", "text", "1.0").unwrap_err();
    assert_eq!(result, missing_title());
    assert!(!result.success);
    assert_eq!(result.issue_number, None);
    assert_eq!(result.issue_url, None);
    assert_eq!(result.error, Some("Titel darf nicht leer sein".to_string()));
    assert!(prepare_issue("bug", "", "", "").is_err());
}

#[test]
fn endpoint_names_the_repository() {
    assert_eq!(issue_endpoint("owner/repo"), "https://api.github.com/repos/owner/repo/issues");
}

#[test]
fn answers_are_reported() {
    let filed = issue_filed(17, "https://github.com/o/r/issues/17".to_string());
    assert!(filed.success);
    assert_eq!(filed.issue_number, Some(17));
    assert_eq!(filed.issue_url, Some("https://github.com/o/r/issues/17".to_string()));
    assert_eq!(filed.error, None);
    let refused = issue_refused(422, "{\"message\":\"bad\"}");
    assert!(!refused.success);
    assert_eq!(refused.issue_number, None);
    assert_eq!(refused.issue_url, None);
    assert_eq!(
        refused.error,
        Some("GitHub API Fehler (422 Unprocessable Entity): {\"message\":\"bad\"}".to_string())
    );
    assert_eq!(parse_failure("eof"), "Fehler beim Parsen: eof");
}

#[test]
fn trimming_agrees_with_str_trim() {
    for s in ["", " ", "a", " a ", "\u{00A0}a\u{2003}b\u{3000}", "\n\ta b\r\n", "\u{200B}x "] {
        let got: String = trimmed(s).into_iter().collect();
        assert_eq!(got, s.trim());
    }
}
