//! What a call fails with, and what each failure means for the caller.

use vstd::prelude::*;

use crate::text::{decimal, decimal_text, maybe_text};
use crate::time::Duration;

verus! {

/// Why a request failed.
///
/// `RateLimited` and `QuotaExceeded` both arrive as HTTP 429 and are not the
/// same thing. A rate limit carries `Retry-After` and retrying works. A spent
/// quota carries no such header, and retrying will not help until the window
/// rolls over or the limit is raised.
#[derive(Clone, Copy, Debug, PartialEq, Eq, Hash, Structural)]
pub enum ErrorKind {
    BadRequest,
    Unauthorized,
    Forbidden,
    RateLimited,
    QuotaExceeded,
    ServerError,
    Network,
    Io,
}

impl ErrorKind {
    /// The wire spelling of a kind.
    pub open spec fn spelling(self) -> Seq<char> {
        match self {
            ErrorKind::BadRequest => "bad_request"@,
            ErrorKind::Unauthorized => "unauthorized"@,
            ErrorKind::Forbidden => "forbidden"@,
            ErrorKind::RateLimited => "rate_limited"@,
            ErrorKind::QuotaExceeded => "quota_exceeded"@,
            ErrorKind::ServerError => "server_error"@,
            ErrorKind::Network => "network"@,
            ErrorKind::Io => "io"@,
        }
    }

    /// The wire spelling.
    pub fn as_str(self) -> (s: &'static str)
        ensures
            s@ == self.spelling(),
    {
        match self {
            ErrorKind::BadRequest => "bad_request",
            ErrorKind::Unauthorized => "unauthorized",
            ErrorKind::Forbidden => "forbidden",
            ErrorKind::RateLimited => "rate_limited",
            ErrorKind::QuotaExceeded => "quota_exceeded",
            ErrorKind::ServerError => "server_error",
            ErrorKind::Network => "network",
            ErrorKind::Io => "io",
        }
    }
}

/// No response arrived: a refused connection, a timeout or a broken read.
#[derive(Debug)]
pub struct NetworkFailure {
    /// What the transport says went wrong.
    pub text: String,
    /// Whether the request ran out of time.
    pub timed_out: bool,
}

/// A transfer that failed on this side of the socket.
#[derive(Debug)]
pub struct IoFailure {
    /// What the system says went wrong.
    pub text: String,
    /// Whether the stream ended before the promised length.
    pub unexpected_eof: bool,
}

/// What every failure of the client is.
#[derive(Debug)]
pub enum Error {
    /// The API answered, and said no.
    Api {
        kind: ErrorKind,
        /// The API's own explanation.
        message: String,
        /// The HTTP status, or 0 for a failure that never had one.
        status: u16,
        /// How long the server asked us to wait.
        retry_after: Option<Duration>,
    },
    /// No response arrived.
    Network(NetworkFailure),
    /// A transfer failed on this side of the socket.
    Io(IoFailure),
    /// The client was asked for something it cannot do, before any request was
    /// sent.
    Config(String),
}

/// What an error says, with its texts as sequences of characters.
pub enum ErrorView {
    Api { kind: ErrorKind, message: Seq<char>, status: u16, retry_after: Option<Duration> },
    Network { text: Seq<char>, timed_out: bool },
    Io { text: Seq<char>, unexpected_eof: bool },
    Config(Seq<char>),
}

impl View for Error {
    type V = ErrorView;

    open spec fn view(&self) -> ErrorView {
        match *self {
            Error::Api { kind, message, status, retry_after } => ErrorView::Api {
                kind,
                message: message@,
                status,
                retry_after,
            },
            Error::Network(f) => ErrorView::Network { text: f.text@, timed_out: f.timed_out },
            Error::Io(f) => ErrorView::Io { text: f.text@, unexpected_eof: f.unexpected_eof },
            Error::Config(m) => ErrorView::Config(m@),
        }
    }
}

impl ErrorView {
    /// What class of failure this is.
    pub open spec fn kind(self) -> ErrorKind {
        match self {
            ErrorView::Api { kind, .. } => kind,
            ErrorView::Network { .. } => ErrorKind::Network,
            ErrorView::Io { .. } => ErrorKind::Io,
            ErrorView::Config(_) => ErrorKind::BadRequest,
        }
    }

    /// Whether retrying the same request could succeed. A transfer that ended
    /// early is worth another attempt, and no other failure of a transfer is.
    pub open spec fn retryable(self) -> bool {
        match self {
            ErrorView::Io { unexpected_eof, .. } => unexpected_eof,
            _ => self.kind() == ErrorKind::RateLimited || self.kind() == ErrorKind::ServerError
                || self.kind() == ErrorKind::Network,
        }
    }

    /// The explanation that came with the failure.
    pub open spec fn message(self) -> Seq<char> {
        match self {
            ErrorView::Api { message, .. } => message,
            ErrorView::Network { text, timed_out } => if timed_out {
                "timed out: "@ + text
            } else {
                text
            },
            ErrorView::Io { text, .. } => text,
            ErrorView::Config(message) => message,
        }
    }

    /// The HTTP status, when a response was received.
    pub open spec fn status(self) -> Option<u16> {
        match self {
            ErrorView::Api { status, .. } => if status != 0 {
                Some(status)
            } else {
                None
            },
            _ => None,
        }
    }

    /// How long the server asked us to wait.
    pub open spec fn retry_after(self) -> Option<Duration> {
        match self {
            ErrorView::Api { retry_after, .. } => retry_after,
            _ => None,
        }
    }

    /// The same failure said again, as the API would say it.
    pub open spec fn restated(self) -> ErrorView {
        ErrorView::Api {
            kind: self.kind(),
            message: self.message(),
            status: match self.status() {
                Some(status) => status,
                None => 0,
            },
            retry_after: self.retry_after(),
        }
    }

    /// The failure as one line of text.
    pub open spec fn line(self) -> Seq<char> {
        match self {
            ErrorView::Api { kind, message, status, .. } => if status == 0 {
                "vpndetection: "@ + kind.spelling() + ": "@ + message
            } else {
                "vpndetection: "@ + kind.spelling() + " (HTTP "@ + decimal_text(status as nat)
                    + "): "@ + message
            },
            ErrorView::Network { .. } => "vpndetection: network: "@ + self.message(),
            ErrorView::Io { text, .. } => "vpndetection: io: "@ + text,
            ErrorView::Config(message) => "vpndetection: "@ + message,
        }
    }
}

impl Error {
    pub fn kind(&self) -> (r: ErrorKind)
        ensures
            r == self@.kind(),
    {
        match self {
            Error::Api { kind, .. } => *kind,
            Error::Network(_) => ErrorKind::Network,
            Error::Io(_) => ErrorKind::Io,
            Error::Config(_) => ErrorKind::BadRequest,
        }
    }

    /// Whether retrying this exact request could succeed.
    pub fn retryable(&self) -> (r: bool)
        ensures
            r == self@.retryable(),
    {
        match self {
            Error::Io(failure) => failure.unexpected_eof,
            _ => {
                let kind = self.kind();
                kind == ErrorKind::RateLimited || kind == ErrorKind::ServerError || kind
                    == ErrorKind::Network
            },
        }
    }

    /// The API's own explanation, or the transport failure's text.
    pub fn message(&self) -> (r: String)
        ensures
            r@ == self@.message(),
    {
        match self {
            Error::Api { message, .. } => message.clone(),
            Error::Network(failure) => if failure.timed_out {
                let mut text = "timed out: ".to_owned();
                text.append(failure.text.as_str());
                text
            } else {
                failure.text.clone()
            },
            Error::Io(failure) => failure.text.clone(),
            Error::Config(message) => message.clone(),
        }
    }

    /// The HTTP status, or `None` when no response was received.
    pub fn status(&self) -> (r: Option<u16>)
        ensures
            r == self@.status(),
    {
        match self {
            Error::Api { status, .. } => if *status != 0 {
                Some(*status)
            } else {
                None
            },
            _ => None,
        }
    }

    /// How long the server asked us to wait before retrying.
    pub fn retry_after(&self) -> (r: Option<Duration>)
        ensures
            r == self@.retry_after(),
    {
        match self {
            Error::Api { retry_after, .. } => *retry_after,
            _ => None,
        }
    }

    /// The failure a refused request is, by its status, by whether the server
    /// asked for a wait, and by what its body says.
    pub fn from_response(
        status: u16,
        retry_after: Option<Duration>,
        envelope: Option<Envelope>,
    ) -> (r: Self)
        ensures
            r@ == refused_response(status, retry_after, envelope_text(envelope)),
    {
        let message = match envelope_message(envelope) {
            Some(message) => message,
            None => {
                let mut text = "request failed with status ".to_owned();
                text.append(decimal(status as u64).as_str());
                text
            },
        };
        Error::Api { kind: kind_for_status(status, retry_after), message, status, retry_after }
    }

    /// A per-entry failure inside a batch that succeeded: the status the single
    /// lookup would have answered, and its message.
    pub fn from_entry(status: u16, message: &str) -> (r: Self)
        ensures
            r@ == refused_entry(status, message@),
    {
        Error::Api {
            kind: kind_for_status(status, None),
            message: message.to_owned(),
            status,
            retry_after: None,
        }
    }

    /// The same failure again, for every address in a chunk that failed as a
    /// whole.
    pub fn restated(&self) -> (r: Self)
        ensures
            r@ == self@.restated(),
    {
        let status: u16 = match self.status() {
            Some(status) => status,
            None => 0,
        };
        Error::Api {
            kind: self.kind(),
            message: self.message(),
            status,
            retry_after: self.retry_after(),
        }
    }

    /// The failure as one line of text.
    pub fn to_text(&self) -> (r: String)
        ensures
            r@ == self@.line(),
    {
        let mut text = "vpndetection: ".to_owned();
        match self {
            Error::Api { kind, message, status, .. } => {
                text.append(kind.as_str());
                if *status == 0 {
                    text.append(": ");
                } else {
                    text.append(" (HTTP ");
                    text.append(decimal(*status as u64).as_str());
                    text.append("): ");
                }
                text.append(message.as_str());
            },
            Error::Network(_) => {
                text = "vpndetection: network: ".to_owned();
                text.append(self.message().as_str());
            },
            Error::Io(failure) => {
                text = "vpndetection: io: ".to_owned();
                text.append(failure.text.as_str());
            },
            Error::Config(message) => {
                text.append(message.as_str());
            },
        }
        text
    }
}

/// What a status says of the failure behind it. On a 429 only a requested wait
/// tells a throttle from a spent allowance. Any other status from 400 to 499 is
/// the caller's own mistake, and everything else is the server's.
pub open spec fn status_kind(status: u16, asked_to_wait: bool) -> ErrorKind {
    if status == 429 {
        if asked_to_wait {
            ErrorKind::RateLimited
        } else {
            ErrorKind::QuotaExceeded
        }
    } else if status == 401 {
        ErrorKind::Unauthorized
    } else if status == 403 {
        ErrorKind::Forbidden
    } else if 400 <= status <= 499 {
        ErrorKind::BadRequest
    } else {
        ErrorKind::ServerError
    }
}

/// What a status code means for a caller.
pub fn kind_for_status(status: u16, retry_after: Option<Duration>) -> (r: ErrorKind)
    ensures
        r == status_kind(status, retry_after is Some),
{
    match status {
        429 => if retry_after.is_some() {
            ErrorKind::RateLimited
        } else {
            ErrorKind::QuotaExceeded
        },
        401 => ErrorKind::Unauthorized,
        403 => ErrorKind::Forbidden,
        400..=499 => ErrorKind::BadRequest,
        _ => ErrorKind::ServerError,
    }
}

/// The error member a refusal's body carries. The lookup endpoint names it
/// `error` and the database endpoints name it `rc`.
#[derive(Debug)]
pub struct Envelope {
    pub error: Option<String>,
    pub rc: Option<String>,
}

/// What the body of a refusal says, when it says anything.
pub open spec fn envelope_text(envelope: Option<Envelope>) -> Option<Seq<char>> {
    match envelope {
        None => None,
        Some(e) => {
            let said = match e.error {
                Some(text) => Some(text@),
                None => maybe_text(e.rc),
            };
            match said {
                Some(text) => if text.len() > 0 {
                    Some(text)
                } else {
                    None
                },
                None => None,
            }
        },
    }
}

/// The explanation in a refusal's body, read out of whichever member the
/// endpoint puts it in. An empty explanation is no explanation.
pub fn envelope_message(envelope: Option<Envelope>) -> (r: Option<String>)
    ensures
        maybe_text(r) == envelope_text(envelope),
{
    match envelope {
        None => None,
        Some(envelope) => {
            let said = match envelope.error {
                Some(text) => Some(text),
                None => envelope.rc,
            };
            match said {
                Some(text) => if text.as_str().is_empty() {
                    None
                } else {
                    Some(text)
                },
                None => None,
            }
        },
    }
}

/// The failure of a request that was answered with a refusal.
pub open spec fn refused_response(
    status: u16,
    retry_after: Option<Duration>,
    said: Option<Seq<char>>,
) -> ErrorView {
    ErrorView::Api {
        kind: status_kind(status, retry_after is Some),
        message: match said {
            Some(text) => text,
            None => "request failed with status "@ + decimal_text(status as nat),
        },
        status,
        retry_after,
    }
}

/// The failure of one address inside a batch that was answered.
pub open spec fn refused_entry(status: u16, message: Seq<char>) -> ErrorView {
    ErrorView::Api { kind: status_kind(status, false), message, status, retry_after: None }
}

/// A 429 is worth retrying exactly when the server asked for a wait.
pub proof fn law_a_429_is_told_apart_by_its_wait(
    retry_after: Option<Duration>,
    said: Option<Seq<char>>,
)
    ensures
        refused_response(429, retry_after, said).retryable() == (retry_after is Some),
        refused_response(429, retry_after, said).kind() == (if retry_after is Some {
            ErrorKind::RateLimited
        } else {
            ErrorKind::QuotaExceeded
        }),
{
}

/// A refusal the caller caused is never worth retrying, whatever it says.
pub proof fn law_a_client_error_is_not_retryable(
    status: u16,
    retry_after: Option<Duration>,
    said: Option<Seq<char>>,
)
    requires
        400 <= status <= 499,
        status != 429,
    ensures
        !refused_response(status, retry_after, said).retryable(),
{
}

/// A request that no response came of, one that ran out of time among them, is
/// worth retrying.
pub proof fn law_a_transport_failure_is_retryable(text: Seq<char>, timed_out: bool)
    ensures
        (ErrorView::Network { text, timed_out }).retryable(),
{
}

/// A refusal outside the 4xx range is the server failing, and worth retrying.
pub proof fn law_a_server_error_is_retryable(
    status: u16,
    retry_after: Option<Duration>,
    said: Option<Seq<char>>,
)
    requires
        !(400 <= status <= 499),
    ensures
        refused_response(status, retry_after, said).kind() == ErrorKind::ServerError,
        refused_response(status, retry_after, said).retryable(),
{
}

/// A restated failure has the kind, the message, the status and the retry
/// advice of the one it restates.
pub proof fn law_restating_keeps_what_a_failure_says(e: ErrorView)
    ensures
        e.restated().kind() == e.kind(),
        e.restated().message() == e.message(),
        e.restated().status() == e.status(),
        e.restated().retry_after() == e.retry_after(),
        e.restated().restated() == e.restated(),
{
}

/// A restated failure is as retryable as the one it restates, unless that one is
/// a transfer that ended early.
pub proof fn law_restating_keeps_retryability(e: ErrorView)
    requires
        !(e matches ErrorView::Io { unexpected_eof, .. } && unexpected_eof),
    ensures
        e.restated().retryable() == e.retryable(),
{
}

/// No two kinds are spelled alike.
pub proof fn law_spellings_are_distinct(a: ErrorKind, b: ErrorKind)
    ensures
        a.spelling() == b.spelling() ==> a == b,
{
    reveal_strlit("bad_request");
    reveal_strlit("unauthorized");
    reveal_strlit("forbidden");
    reveal_strlit("rate_limited");
    reveal_strlit("quota_exceeded");
    reveal_strlit("server_error");
    reveal_strlit("network");
    reveal_strlit("io");
    assert(a.spelling() == b.spelling() ==> a.spelling()[0] == b.spelling()[0] && a.spelling().len()
        == b.spelling().len());
}

/// A refusal is of the kind its status says, and keeps the status, the wait and the
/// explanation it came with; without an explanation it says its status.
pub proof fn law_a_refusal_says_what_it_was_refused_with(
    status: u16,
    retry_after: Option<Duration>,
    said: Option<Seq<char>>,
)
    ensures
        ({
            let refused = refused_response(status, retry_after, said);
            &&& refused.kind() == ErrorKind::Unauthorized <==> status == 401
            &&& refused.kind() == ErrorKind::Forbidden <==> status == 403
            &&& refused.kind() == ErrorKind::RateLimited <==> status == 429 && retry_after is Some
            &&& refused.kind() == ErrorKind::QuotaExceeded <==> status == 429 && retry_after is None
            &&& refused.kind() == ErrorKind::BadRequest <==> 400 <= status < 500 && status != 401
                && status != 403 && status != 429
            &&& refused.kind() == ErrorKind::ServerError <==> status < 400 || status >= 500
            &&& status != 0 ==> refused.status() == Some(status)
            &&& refused.retry_after() == retry_after
            &&& said matches Some(text) ==> refused.message() == text
            &&& said is None ==> refused.message() == "request failed with status "@ + decimal_text(
                status as nat,
            )
        }),
{
}

/// The failure of one address in a batch is the one a lookup of it alone would have
/// had from the same status without a wait: a spent allowance on a 429, and never
/// worth retrying below 500. It keeps its status and its message and asks for no
/// wait.
pub proof fn law_an_entry_fails_as_its_lookup_would(
    status: u16,
    message: Seq<char>,
    said: Option<Seq<char>>,
)
    ensures
        refused_entry(status, message).kind() == refused_response(status, None, said).kind(),
        refused_entry(status, message).retryable() == refused_response(
            status,
            None,
            said,
        ).retryable(),
        refused_entry(status, message).message() == message,
        status != 0 ==> refused_entry(status, message).status() == Some(status),
        refused_entry(status, message).retry_after() is None,
        status == 429 ==> refused_entry(status, message).kind() == ErrorKind::QuotaExceeded
            && !refused_entry(status, message).retryable(),
        400 <= status < 500 ==> !refused_entry(status, message).retryable(),
        status >= 500 ==> refused_entry(status, message).kind() == ErrorKind::ServerError
            && refused_entry(status, message).retryable(),
        status == 401 ==> refused_entry(status, message).kind() == ErrorKind::Unauthorized,
        status == 403 ==> refused_entry(status, message).kind() == ErrorKind::Forbidden,
        status == 400 || status == 404 ==> refused_entry(status, message).kind()
            == ErrorKind::BadRequest,
{
}

/// A status means the same whoever answers it: what separates a throttle from a
/// spent allowance is the wait, and any other client error is the caller's.
pub proof fn law_a_status_has_one_kind(status: u16, asked_to_wait: bool)
    ensures
        status != 429 ==> status_kind(status, asked_to_wait) == status_kind(status, !asked_to_wait),
        status_kind(429, true) == ErrorKind::RateLimited,
        status_kind(429, false) == ErrorKind::QuotaExceeded,
        (status_kind(status, asked_to_wait) == ErrorKind::Unauthorized) == (status == 401),
        (status_kind(status, asked_to_wait) == ErrorKind::Forbidden) == (status == 403),
        (status_kind(status, asked_to_wait) == ErrorKind::BadRequest) == (400 <= status < 500
            && status != 401 && status != 403 && status != 429),
        (status_kind(status, asked_to_wait) == ErrorKind::ServerError) == !(400 <= status < 500),
{
}

/// What every failure says of itself: an answer its own kind, message, status and
/// wait, a transport its text with the words that it timed out when it did, a
/// transfer its text, and a misuse its message. Only an answer has a status or a
/// wait, and one without a status has none.
pub proof fn law_a_failure_says_what_happened(e: Error)
    ensures
        match e {
            Error::Api { kind, message, status, retry_after } => {
                &&& e@.kind() == kind
                &&& e@.message() == message@
                &&& e@.status() == (if status == 0 {
                    None
                } else {
                    Some(status)
                })
                &&& e@.retry_after() == retry_after
                &&& e@.retryable() == (kind == ErrorKind::RateLimited || kind
                    == ErrorKind::ServerError || kind == ErrorKind::Network)
            },
            Error::Network(failure) => {
                &&& e@.kind() == ErrorKind::Network
                &&& e@.message() == (if failure.timed_out {
                    "timed out: "@ + failure.text@
                } else {
                    failure.text@
                })
                &&& e@.status() is None
                &&& e@.retry_after() is None
                &&& e@.retryable()
            },
            Error::Io(failure) => {
                &&& e@.kind() == ErrorKind::Io
                &&& e@.message() == failure.text@
                &&& e@.status() is None
                &&& e@.retry_after() is None
                &&& e@.retryable() == failure.unexpected_eof
            },
            Error::Config(message) => {
                &&& e@.kind() == ErrorKind::BadRequest
                &&& e@.message() == message@
                &&& e@.status() is None
                &&& e@.retry_after() is None
                &&& !e@.retryable()
            },
        },
{
}

/// The line of a failure opens with the name of the library and ends with the
/// message. Between them stand the kind and, where there was one, the status.
pub proof fn law_a_line_names_kind_status_and_message(
    kind: ErrorKind,
    message: Seq<char>,
    status: u16,
    retry_after: Option<Duration>,
    timed_out: bool,
    unexpected_eof: bool,
)
    ensures
        (ErrorView::Api { kind, message, status, retry_after }).line() == "vpndetection: "@
            + kind.spelling() + (if status == 0 {
            ""@
        } else {
            " (HTTP "@ + decimal_text(status as nat) + ")"@
        }) + ": "@ + message,
        (ErrorView::Network { text: message, timed_out }).line() == "vpndetection: network: "@ + (
        if timed_out {
            "timed out: "@
        } else {
            ""@
        }) + message,
        (ErrorView::Io { text: message, unexpected_eof }).line() == "vpndetection: io: "@ + message,
        ErrorView::Config(message).line() == "vpndetection: "@ + message,
{
    reveal_strlit("");
    reveal_strlit(")");
    reveal_strlit(": ");
    reveal_strlit("): ");
    assert("): "@ =~= ")"@ + ": "@);
    let api = ErrorView::Api { kind, message, status, retry_after };
    if status == 0 {
        assert(api.line() =~= "vpndetection: "@ + kind.spelling() + ""@ + ": "@ + message);
    } else {
        assert(api.line() =~= "vpndetection: "@ + kind.spelling() + (" (HTTP "@ + decimal_text(
            status as nat,
        ) + ")"@) + ": "@ + message);
    }
    let network = ErrorView::Network { text: message, timed_out };
    assert(network.line() =~= "vpndetection: network: "@ + (if timed_out {
        "timed out: "@
    } else {
        ""@
    }) + message);
}

/// How each kind is spelled on the wire.
pub proof fn law_a_kind_is_spelled_as_the_wire_spells_it()
    ensures
        ErrorKind::BadRequest.spelling() == "bad_request"@,
        ErrorKind::Unauthorized.spelling() == "unauthorized"@,
        ErrorKind::Forbidden.spelling() == "forbidden"@,
        ErrorKind::RateLimited.spelling() == "rate_limited"@,
        ErrorKind::QuotaExceeded.spelling() == "quota_exceeded"@,
        ErrorKind::ServerError.spelling() == "server_error"@,
        ErrorKind::Network.spelling() == "network"@,
        ErrorKind::Io.spelling() == "io"@,
{
}

/// A refusal's body explains itself by its `error`, or by its `rc` where it has no
/// `error`, and an empty explanation is none.
pub proof fn law_an_envelope_explains_by_error_then_rc(envelope: Envelope)
    ensures
        envelope_text(None) is None,
        envelope.error matches Some(text) ==> envelope_text(Some(envelope)) == (if text@.len()
            == 0 {
            None
        } else {
            Some(text@)
        }),
        envelope.error is None ==> envelope_text(Some(envelope)) == (match envelope.rc {
            Some(text) => if text@.len() == 0 {
                None
            } else {
                Some(text@)
            },
            None => None,
        }),
{
}

}
