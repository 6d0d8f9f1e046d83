//! Feedback from the application, filed as an issue: what is sent, and how
//! the answer is reported. Sending is left to the caller.

use crate::fetch::{status_line, status_text};
use crate::text::{append_str, copy_range, to_chars, to_string, trim, trim_span};
use vstd::prelude::*;

verus! {

/// The issue that is filed for a piece of feedback.
#[derive(Debug, Clone, PartialEq, Eq)]
pub struct IssueRequest {
    pub title: String,
    pub body: String,
    pub labels: Vec<String>,
}

/// What the user is told of the feedback sent.
#[derive(Debug, Clone, PartialEq, Eq)]
pub struct FeedbackResult {
    pub success: bool,
    pub issue_number: Option<u64>,
    pub issue_url: Option<String>,
    pub error: Option<String>,
}

/// The labels of an issue, by the kind of feedback: a kind that is known
/// gives its own label, and every issue is marked `from-app`.
pub open spec fn labels_for(kind: Seq<char>) -> Seq<Seq<char>> {
    if kind == "feature"@ {
        seq!["enhancement"@, "from-app"@]
    } else if kind == "bug"@ {
        seq!["bug"@, "from-app"@]
    } else if kind == "feedback"@ {
        seq!["feedback"@, "from-app"@]
    } else {
        seq!["from-app"@]
    }
}

/// The body of an issue: the description, a rule, and a line that names
/// the version of the application.
pub open spec fn issue_body(description: Seq<char>, app_version: Seq<char>) -> Seq<char> {
    description + "\n\n---\n*Gesendet aus Tally v"@ + app_version + " via In-App Feedback*"@
}

/// Where the issues of the repository `repo` are filed.
pub open spec fn endpoint_of(repo: Seq<char>) -> Seq<char> {
    "https://api.github.com/repos/"@ + repo + "/issues"@
}

/// How a refusal by the server is worded.
pub open spec fn refusal_text(status: u16, detail: Seq<char>) -> Seq<char> {
    "GitHub API Fehler ("@ + status_text(status) + "): "@ + detail
}

/// Whether feedback with this title is sent at all: the title must hold
/// more than white space.
pub open spec fn has_title(title: Seq<char>) -> bool {
    trim(title).len() > 0
}

/// `s` without the white space at its start and at its end.
pub fn trimmed(s: &str) -> (out: Vec<char>)
    ensures
        out@ == trim(s@),
{
    let chars = to_chars(s);
    assert(chars@.subrange(0, chars.len() as int) =~= chars@);
    let (a, b) = trim_span(chars.as_slice(), 0, chars.len());
    copy_range(chars.as_slice(), a, b)
}

/// Whether `a` and `b` hold the same characters.
fn same_text(a: &[char], b: &str) -> (same: bool)
    ensures
        same == (a@ == b@),
{
    let b_chars = to_chars(b);
    if a.len() != b_chars.len() {
        return false;
    }
    let mut i: usize = 0;
    while i < a.len()
        invariant
            a.len() == b_chars.len(),
            b_chars@ == b@,
            i <= a.len(),
            forall|j: int| 0 <= j < i ==> a@[j] == b_chars@[j],
        decreases a.len() - i,
    {
        if a[i] != b_chars[i] {
            assert(a@[i as int] != b@[i as int]);
            return false;
        }
        i += 1;
    }
    assert(a@ =~= b_chars@);
    true
}

/// The labels of an issue, by the kind of feedback.
pub fn issue_labels(kind: &str) -> (labels: Vec<String>)
    ensures
        labels.deep_view() == labels_for(kind@),
{
    let kind_chars = to_chars(kind);
    let mut labels: Vec<String> = Vec::new();
    if same_text(kind_chars.as_slice(), "feature") {
        labels.push("enhancement".to_owned());
    } else if same_text(kind_chars.as_slice(), "bug") {
        labels.push("bug".to_owned());
    } else if same_text(kind_chars.as_slice(), "feedback") {
        labels.push("feedback".to_owned());
    }
    labels.push("from-app".to_owned());
    assert(labels.deep_view() =~= labels_for(kind@));
    labels
}

/// The result that reports feedback without a title.
pub fn missing_title() -> (result: FeedbackResult)
    ensures
        !result.success,
        result.issue_number is None,
        result.issue_url is None,
        result.error.deep_view() == Some("Titel darf nicht leer sein"@),
{
    FeedbackResult {
        success: false,
        issue_number: None,
        issue_url: None,
        error: Some("Titel darf nicht leer sein".to_owned()),
    }
}

/// The issue to file for a piece of feedback. Title and description are
/// trimmed first. Feedback whose title is then empty is not sent: it gets
/// the result of `missing_title` at once.
pub fn prepare_issue(kind: &str, title: &str, description: &str, app_version: &str) -> (prepared:
    Result<IssueRequest, FeedbackResult>)
    ensures
        prepared is Ok <==> has_title(title@),
        prepared matches Ok(issue) ==> {
            &&& issue.title@ == trim(title@)
            &&& issue.body@ == issue_body(trim(description@), app_version@)
            &&& issue.labels.deep_view() == labels_for(kind@)
        },
        prepared matches Err(result) ==> {
            &&& !result.success
            &&& result.issue_number is None
            &&& result.issue_url is None
            &&& result.error.deep_view() == Some("Titel darf nicht leer sein"@)
        },
{
    let title_chars = trimmed(title);
    if title_chars.len() == 0 {
        return Err(missing_title());
    }
    let mut body = trimmed(description);
    append_str(&mut body, "\n\n---\n*Gesendet aus Tally v");
    append_str(&mut body, app_version);
    append_str(&mut body, " via In-App Feedback*");
    Ok(
        IssueRequest {
            title: to_string(title_chars.as_slice()),
            body: to_string(body.as_slice()),
            labels: issue_labels(kind),
        },
    )
}

/// Where the issues of the repository `repo` are filed.
pub fn issue_endpoint(repo: &str) -> (url: String)
    ensures
        url@ == endpoint_of(repo@),
{
    let mut out: Vec<char> = Vec::new();
    append_str(&mut out, "https://api.github.com/repos/");
    append_str(&mut out, repo);
    append_str(&mut out, "/issues");
    assert(out@ =~= endpoint_of(repo@));
    to_string(out.as_slice())
}

/// The result that reports an issue filed under `number` at `url`.
pub fn issue_filed(number: u64, url: String) -> (result: FeedbackResult)
    ensures
        result.success,
        result.issue_number == Some(number),
        result.issue_url == Some(url),
        result.error is None,
{
    FeedbackResult { success: true, issue_number: Some(number), issue_url: Some(url), error: None }
}

/// The result that reports an answer whose status is not one of success,
/// with the text that came with it.
pub fn issue_refused(status: u16, detail: &str) -> (result: FeedbackResult)
    ensures
        !result.success,
        result.issue_number is None,
        result.issue_url is None,
        result.error.deep_view() == Some(refusal_text(status, detail@)),
{
    let line = status_line(status);
    let mut out: Vec<char> = Vec::new();
    append_str(&mut out, "GitHub API Fehler (");
    append_str(&mut out, line.as_str());
    append_str(&mut out, "): ");
    append_str(&mut out, detail);
    assert(out@ =~= refusal_text(status, detail@));
    FeedbackResult {
        success: false,
        issue_number: None,
        issue_url: None,
        error: Some(to_string(out.as_slice())),
    }
}

/// How a failure to read the answer as an issue is worded.
pub fn parse_failure(detail: &str) -> (text: String)
    ensures
        text@ == "Fehler beim Parsen: "@ + detail@,
{
    let mut out: Vec<char> = Vec::new();
    append_str(&mut out, "Fehler beim Parsen: ");
    append_str(&mut out, detail);
    assert(out@ =~= "Fehler beim Parsen: "@ + detail@);
    to_string(out.as_slice())
}

} // verus!
