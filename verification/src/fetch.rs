//! The policy round fetching a page: how it is asked for, what each
//! outcome of the exchange leads to, and how a failure is worded.
//!
//! The exchange itself is not made here. Its caller sends the request that
//! `FetchPolicy` describes and hands back what happened as a `FetchEvent`;
//! `next_step` says what follows. Nothing is retried.

use crate::resolver::{page_metadata, resolve_metadata, OgMetadata};
use crate::text::{append_str, starts_with, to_string};
use vstd::prelude::*;

verus! {

/// How a page is asked for.
pub struct FetchPolicy {
    /// Seconds allowed for the whole exchange.
    pub timeout_secs: u64,
    /// How many redirects are followed.
    pub max_redirects: usize,
    /// The `User-Agent` header.
    pub user_agent: &'static str,
    /// The `Accept` header.
    pub accept: &'static str,
}

impl FetchPolicy {
    /// The policy of this library: five seconds, five redirects, the user
    /// agent of a browser, and HTML as the wanted content.
    pub fn standard() -> (policy: FetchPolicy)
        ensures
            policy.timeout_secs == 5,
            policy.max_redirects == 5,
            policy.user_agent@ == "Mozilla/5.0 (compatible; TallyApp/1.0)"@,
            policy.accept@ == "text/html"@,
    {
        FetchPolicy {
            timeout_secs: 5,
            max_redirects: 5,
            user_agent: "Mozilla/5.0 (compatible; TallyApp/1.0)",
            accept: "text/html",
        }
    }
}

/// Why no metadata came of a request.
#[derive(Debug, Clone, PartialEq, Eq)]
pub enum FetchError {
    /// The client could not be set up; no request was made.
    Client(String),
    /// The request did not get an answer: DNS, connection or timeout.
    Network(String),
    /// The answer's status was not one of success.
    Status(u16),
    /// The answer's body could not be read.
    Read(String),
}

/// What happened in the exchange.
#[derive(Debug, Clone, PartialEq, Eq)]
pub enum FetchEvent {
    /// The client could not be set up.
    ClientFailed(String),
    /// Sending the request failed.
    SendFailed(String),
    /// An answer came, with this status.
    Responded(u16),
    /// Reading the answer's body failed.
    ReadFailed(String),
    /// The answer's body was read.
    BodyRead(String),
}

/// What follows an event.
#[derive(Debug, Clone, PartialEq, Eq)]
pub enum FetchStep {
    /// The answer is good: read its body.
    ReadBody,
    /// The request has failed for good.
    Failed(FetchError),
    /// The request is done, with this metadata.
    Resolved(OgMetadata),
}

/// A status of success: the class 2xx.
pub open spec fn is_success(status: u16) -> bool {
    200 <= status <= 299
}

/// The character of a decimal digit.
pub open spec fn digit_char(d: nat) -> char {
    ('0' as u8 + d) as char
}

/// `n` in decimal digits.
pub open spec fn decimal(n: nat) -> Seq<char>
    decreases n,
{
    if n < 10 {
        seq![digit_char(n)]
    } else {
        decimal(n / 10).push(digit_char(n % 10))
    }
}

/// The text that reqwest's `StatusCode` displays for the status `code`.
pub uninterp spec fn status_display(code: u16) -> Seq<char>;

/// How a status is worded: as reqwest displays it, or, for a number that is
/// no status of HTTP, in decimal digits.
pub open spec fn status_text(code: u16) -> Seq<char> {
    if 100 <= code <= 999 {
        status_display(code)
    } else {
        decimal(code as nat)
    }
}

/// How a failure is worded for the user.
pub open spec fn message_text(error: FetchError) -> Seq<char> {
    match error {
        FetchError::Client(detail) => "Client error: "@ + detail@,
        FetchError::Network(detail) => "Netzwerkfehler: "@ + detail@,
        FetchError::Status(code) => "HTTP "@ + status_text(code),
        FetchError::Read(detail) => "Fehler beim Lesen: "@ + detail@,
    }
}

/// What follows `event` in the request for `url`.
pub open spec fn step_after(url: Seq<char>, event: FetchEvent, step: FetchStep) -> bool {
    match event {
        FetchEvent::ClientFailed(detail) => step == FetchStep::Failed(FetchError::Client(detail)),
        FetchEvent::SendFailed(detail) => step == FetchStep::Failed(FetchError::Network(detail)),
        FetchEvent::Responded(status) => if is_success(status) {
            step is ReadBody
        } else {
            step == FetchStep::Failed(FetchError::Status(status))
        },
        FetchEvent::ReadFailed(detail) => step == FetchStep::Failed(FetchError::Read(detail)),
        FetchEvent::BodyRead(body) => step matches FetchStep::Resolved(metadata) && metadata@
            == page_metadata(body@, url),
    }
}

/// Calls `reqwest::StatusCode::from_u16` and displays the status it gives.
/// `from_u16` takes the numbers from 100 to 999 and no others. The text
/// displayed is the number in decimal digits, a space, and the reason
/// phrase of that status; its reason phrases are not stated here.
#[verifier::external_body]
fn display_status(code: u16) -> (text: Option<String>)
    ensures
        text is Some <==> 100 <= code <= 999,
        text matches Some(t) ==> t@ == status_display(code),
        text matches Some(t) ==> starts_with(t@, decimal(code as nat) + " "@),
{
    match reqwest::StatusCode::from_u16(code) {
        Ok(status) => Some(status.to_string()),
        Err(_) => None,
    }
}

/// `n` in decimal digits.
pub fn decimal_chars(n: u16) -> (digits: Vec<char>)
    ensures
        digits@ == decimal(n as nat),
    decreases n,
{
    let low: u8 = (n % 10) as u8;
    let last: char = (48u8 + low) as char;
    if n < 10 {
        let mut digits: Vec<char> = Vec::new();
        digits.push(last);
        assert(digits@ =~= seq![digit_char(n as nat)]);
        digits
    } else {
        let mut digits = decimal_chars(n / 10);
        digits.push(last);
        digits
    }
}

/// Whether `status` is one of success.
pub fn status_is_success(status: u16) -> (r: bool)
    ensures
        r == is_success(status),
{
    200 <= status && status <= 299
}

/// How the status `code` is worded in a failure. The text begins with the
/// number; that of a status of HTTP goes on with a space.
pub fn status_line(code: u16) -> (text: String)
    ensures
        text@ == status_text(code),
        starts_with(text@, decimal(code as nat)),
        100 <= code <= 999 ==> starts_with(text@, decimal(code as nat) + " "@),
{
    match display_status(code) {
        Some(text) => {
            proof {
                let digits = decimal(code as nat);
                let head = digits + " "@;
                assert(text@.subrange(0, digits.len() as int) =~= text@.subrange(
                    0,
                    head.len() as int,
                ).subrange(0, digits.len() as int));
                assert(head.subrange(0, digits.len() as int) =~= digits);
            }
            text
        },
        None => {
            let digits = decimal_chars(code);
            assert(digits@.subrange(0, digits@.len() as int) =~= digits@);
            to_string(digits.as_slice())
        },
    }
}

impl FetchError {
    /// The failure in words. That of a status begins with `HTTP`, a space
    /// and the number of the status.
    pub fn message(&self) -> (text: String)
        ensures
            text@ == message_text(*self),
            self matches FetchError::Status(code) ==> starts_with(
                text@,
                "HTTP "@ + decimal(code as nat),
            ),
    {
        let mut out: Vec<char> = Vec::new();
        match self {
            FetchError::Client(detail) => {
                append_str(&mut out, "Client error: ");
                append_str(&mut out, detail.as_str());
            },
            FetchError::Network(detail) => {
                append_str(&mut out, "Netzwerkfehler: ");
                append_str(&mut out, detail.as_str());
            },
            FetchError::Status(code) => {
                let line = status_line(*code);
                append_str(&mut out, "HTTP ");
                append_str(&mut out, line.as_str());
                proof {
                    let digits = decimal(*code as nat);
                    let head = "HTTP "@;
                    assert(out@ =~= head + line@);
                    assert(line@.subrange(0, digits.len() as int) == digits);
                    assert(out@.subrange(0, (head + digits).len() as int) =~= head + digits);
                }
            },
            FetchError::Read(detail) => {
                append_str(&mut out, "Fehler beim Lesen: ");
                append_str(&mut out, detail.as_str());
            },
        }
        assert(out@ =~= message_text(*self));
        to_string(out.as_slice())
    }
}

/// What follows `event` in the request for `url`. A failure to set up, to
/// send or to read ends the request with that failure. An answer with a
/// status of success has its body read; with any other status the request
/// ends with `FetchError::Status`. A body that was read ends the request
/// with the metadata found in it.
pub fn next_step(url: &str, event: FetchEvent) -> (step: FetchStep)
    ensures
        step_after(url@, event, step),
{
    match event {
        FetchEvent::ClientFailed(detail) => FetchStep::Failed(FetchError::Client(detail)),
        FetchEvent::SendFailed(detail) => FetchStep::Failed(FetchError::Network(detail)),
        FetchEvent::Responded(status) => {
            if status_is_success(status) {
                FetchStep::ReadBody
            } else {
                FetchStep::Failed(FetchError::Status(status))
            }
        },
        FetchEvent::ReadFailed(detail) => FetchStep::Failed(FetchError::Read(detail)),
        FetchEvent::BodyRead(body) => FetchStep::Resolved(resolve_metadata(body.as_str(), url)),
    }
}

} // verus!
