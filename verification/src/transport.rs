//! The requests there are, and what their answers mean.

use vstd::prelude::*;

use crate::error::{envelope_text, kind_for_status, refused_response, status_kind};
use crate::error::{Envelope, Error, ErrorKind, ErrorView};
use crate::text::{concat, decimal, decimal_text, maybe_text, parse_u64, parsed_u64};
use crate::text::{texts, trim, trimmed};
use crate::time::{Duration, NANOS_PER_SEC};

verus! {

#[derive(Clone, Copy, Debug, PartialEq, Eq, Structural)]
pub enum Method {
    Get,
    Post,
}

/// What a request sends after its headers.
#[derive(Debug)]
pub enum Body {
    Empty,
    /// The addresses of a batch, as JSON.
    Batch(Vec<String>),
    /// `application/x-www-form-urlencoded` fields.
    Form(Vec<(String, String)>),
}

/// One HTTP request.
#[derive(Debug)]
pub struct Request {
    pub method: Method,
    pub url: String,
    pub query: Vec<(String, String)>,
    pub authorization: Option<String>,
    pub body: Body,
    /// How long the request may take, from connecting to the last byte of the
    /// answer. A file transfer has no such bound.
    pub timeout: Option<Duration>,
}

pub enum BodyView {
    Empty,
    Batch(Seq<Seq<char>>),
    Form(Seq<(Seq<char>, Seq<char>)>),
}

/// What a request is, with its texts as sequences of characters.
pub struct Sent {
    pub method: Method,
    pub url: Seq<char>,
    pub query: Seq<(Seq<char>, Seq<char>)>,
    pub authorization: Option<Seq<char>>,
    pub body: BodyView,
    pub timeout: Option<Duration>,
}

/// The texts of pairs of strings.
pub open spec fn pair_texts(pairs: Seq<(String, String)>) -> Seq<(Seq<char>, Seq<char>)> {
    pairs.map_values(|pair: (String, String)| (pair.0@, pair.1@))
}

impl View for Body {
    type V = BodyView;

    open spec fn view(&self) -> BodyView {
        match self {
            Body::Empty => BodyView::Empty,
            Body::Batch(ips) => BodyView::Batch(texts(ips@)),
            Body::Form(form) => BodyView::Form(pair_texts(form@)),
        }
    }
}

impl View for Request {
    type V = Sent;

    open spec fn view(&self) -> Sent {
        Sent {
            method: self.method,
            url: self.url@,
            query: pair_texts(self.query@),
            authorization: maybe_text(self.authorization),
            body: self.body@,
            timeout: self.timeout,
        }
    }
}

/// The credential a request carries: a bearer token, and nothing for a key that
/// is empty or not there.
pub open spec fn bearer(key: Option<Seq<char>>) -> Option<Seq<char>> {
    match key {
        Some(key) => if key.len() > 0 {
            Some("Bearer "@ + key)
        } else {
            None
        },
        None => None,
    }
}

/// A read of the API, which carries the key.
pub open spec fn read_request(
    base_url: Seq<char>,
    key: Option<Seq<char>>,
    path: Seq<char>,
    query: Seq<(Seq<char>, Seq<char>)>,
    timeout: Duration,
) -> Sent {
    Sent {
        method: Method::Get,
        url: base_url + path,
        query,
        authorization: bearer(key),
        body: BodyView::Empty,
        timeout: Some(timeout),
    }
}

/// A batch of addresses, which carries the key.
pub open spec fn batch_request(
    base_url: Seq<char>,
    key: Option<Seq<char>>,
    path: Seq<char>,
    ips: Seq<Seq<char>>,
    timeout: Duration,
) -> Sent {
    Sent {
        method: Method::Post,
        url: base_url + path,
        query: Seq::empty(),
        authorization: bearer(key),
        body: BodyView::Batch(ips),
        timeout: Some(timeout),
    }
}

/// A fetch of a link that authorizes itself. It has neither a credential nor a
/// bound on how long it takes.
pub open spec fn file_request(url: Seq<char>) -> Sent {
    Sent {
        method: Method::Get,
        url,
        query: Seq::empty(),
        authorization: None,
        body: BodyView::Empty,
        timeout: None,
    }
}

/// A read without a credential.
pub open spec fn keyless_request(base_url: Seq<char>, path: Seq<char>, timeout: Duration) -> Sent {
    Sent {
        method: Method::Get,
        url: base_url + path,
        query: Seq::empty(),
        authorization: None,
        body: BodyView::Empty,
        timeout: Some(timeout),
    }
}

/// A form without a credential.
pub open spec fn form_request(
    base_url: Seq<char>,
    path: Seq<char>,
    form: Seq<(Seq<char>, Seq<char>)>,
    timeout: Duration,
) -> Sent {
    Sent {
        method: Method::Post,
        url: base_url + path,
        query: Seq::empty(),
        authorization: None,
        body: BodyView::Form(form),
        timeout: Some(timeout),
    }
}

/// Where requests go, and the credential those to the API carry.
#[derive(Clone, Debug)]
pub struct Transport {
    pub base_url: String,
    pub api_key: Option<String>,
}

impl Transport {
    pub fn new(base_url: String, api_key: Option<String>) -> (r: Self)
        ensures
            r.base_url == base_url,
            r.api_key == api_key,
    {
        Transport { base_url, api_key }
    }

    fn authorization(&self) -> (r: Option<String>)
        ensures
            maybe_text(r) == bearer(maybe_text(self.api_key)),
    {
        match &self.api_key {
            Some(key) => if key.as_str().is_empty() {
                None
            } else {
                Some(concat("Bearer ", key.as_str()))
            },
            None => None,
        }
    }

    /// A read of the API.
    pub fn get_json(
        &self,
        path: &str,
        query: Vec<(String, String)>,
        timeout: Duration,
    ) -> (r: Request)
        ensures
            r@ == read_request(
                self.base_url@,
                maybe_text(self.api_key),
                path@,
                pair_texts(query@),
                timeout,
            ),
    {
        Request {
            method: Method::Get,
            url: concat(self.base_url.as_str(), path),
            query,
            authorization: self.authorization(),
            body: Body::Empty,
            timeout: Some(timeout),
        }
    }

    /// A batch of addresses.
    pub fn post_json(&self, path: &str, ips: Vec<String>, timeout: Duration) -> (r: Request)
        ensures
            r@ == batch_request(
                self.base_url@,
                maybe_text(self.api_key),
                path@,
                texts(ips@),
                timeout,
            ),
    {
        let query: Vec<(String, String)> = Vec::new();
        assert(pair_texts(query@) =~= Seq::empty());
        Request {
            method: Method::Post,
            url: concat(self.base_url.as_str(), path),
            query,
            authorization: self.authorization(),
            body: Body::Batch(ips),
            timeout: Some(timeout),
        }
    }

    /// A fetch of an absolute URL that authorizes itself, with no credential.
    pub fn get_file(&self, url: &str) -> (r: Request)
        ensures
            r@ == file_request(url@),
    {
        let query: Vec<(String, String)> = Vec::new();
        assert(pair_texts(query@) =~= Seq::empty());
        Request {
            method: Method::Get,
            url: url.to_owned(),
            query,
            authorization: None,
            body: Body::Empty,
            timeout: None,
        }
    }

    /// A read that never carries the key.
    pub fn get_keyless(&self, path: &str, timeout: Duration) -> (r: Request)
        ensures
            r@ == keyless_request(self.base_url@, path@, timeout),
    {
        let query: Vec<(String, String)> = Vec::new();
        assert(pair_texts(query@) =~= Seq::empty());
        Request {
            method: Method::Get,
            url: concat(self.base_url.as_str(), path),
            query,
            authorization: None,
            body: Body::Empty,
            timeout: Some(timeout),
        }
    }

    /// A form, which never carries the key either.
    pub fn post_form(
        &self,
        path: &str,
        form: Vec<(String, String)>,
        timeout: Duration,
    ) -> (r: Request)
        ensures
            r@ == form_request(self.base_url@, path@, pair_texts(form@), timeout),
    {
        let query: Vec<(String, String)> = Vec::new();
        assert(pair_texts(query@) =~= Seq::empty());
        Request {
            method: Method::Post,
            url: concat(self.base_url.as_str(), path),
            query,
            authorization: None,
            body: Body::Form(form),
            timeout: Some(timeout),
        }
    }
}

/// An empty key is no key.
pub proof fn law_an_empty_key_is_no_key(
    base_url: Seq<char>,
    path: Seq<char>,
    query: Seq<(Seq<char>, Seq<char>)>,
    ips: Seq<Seq<char>>,
    timeout: Duration,
)
    ensures
        read_request(base_url, Some(Seq::empty()), path, query, timeout) == read_request(
            base_url,
            None,
            path,
            query,
            timeout,
        ),
        batch_request(base_url, Some(Seq::empty()), path, ips, timeout) == batch_request(
            base_url,
            None,
            path,
            ips,
            timeout,
        ),
{
}

/// Whether a status says that a request succeeded.
pub open spec fn succeeded(status: u16) -> bool {
    200 <= status < 300
}

/// The failure of an answer that succeeded and could not be read.
pub open spec fn undecodable(status: u16, why: Seq<char>) -> ErrorView {
    ErrorView::Api {
        kind: ErrorKind::ServerError,
        message: "could not decode the response: "@ + why,
        status,
        retry_after: None,
    }
}

/// What an answer gives: its decoded body when it succeeded, or the failure it
/// describes. A body that does not decode is a failure of the server, so it is
/// worth retrying.
pub fn decode<T>(
    status: u16,
    retry_after: Option<Duration>,
    envelope: Option<Envelope>,
    parsed: Result<T, String>,
) -> (r: Result<T, Error>)
    ensures
        match r {
            Ok(value) => succeeded(status) && parsed == Ok::<T, String>(value),
            Err(e) => if succeeded(status) {
                parsed matches Err(why) && e@ == undecodable(status, why@)
            } else {
                e@ == refused_response(status, retry_after, envelope_text(envelope))
            },
        },
{
    if status < 200 || status >= 300 {
        return Err(Error::from_response(status, retry_after, envelope));
    }
    match parsed {
        Ok(value) => Ok(value),
        Err(why) => Err(
            Error::Api {
                kind: ErrorKind::ServerError,
                message: concat("could not decode the response: ", why.as_str()),
                status,
                retry_after: None,
            },
        ),
    }
}

/// What following the redirect of a download costs.
pub const FOLLOWED: &'static str = "the download redirect was followed, so its Location is gone: build the reqwest::Client you passed to ClientBuilder::http_client with reqwest::redirect::Policy::none()";

/// The link a redirect gives, or why there is none.
pub open spec fn redirect_target(
    status: u16,
    location: Option<Seq<char>>,
    retry_after: Option<Duration>,
    said: Option<Seq<char>>,
) -> Result<Seq<char>, ErrorView> {
    if 300 <= status < 400 {
        match location {
            Some(location) => Ok(location),
            None => Err(
                ErrorView::Api {
                    kind: ErrorKind::ServerError,
                    message: "the redirect carried no Location header"@,
                    status,
                    retry_after: None,
                },
            ),
        }
    } else if succeeded(status) {
        Err(ErrorView::Config(FOLLOWED@))
    } else {
        Err(refused_response(status, retry_after, said))
    }
}

/// The `Location` of a redirect that is not followed. An answer that succeeded
/// outright was followed by the client that sent the request, so the link is
/// gone.
pub fn redirect(
    status: u16,
    location: Option<String>,
    retry_after: Option<Duration>,
    envelope: Option<Envelope>,
) -> (r: Result<String, Error>)
    ensures
        match r {
            Ok(link) => redirect_target(
                status,
                maybe_text(location),
                retry_after,
                envelope_text(envelope),
            ) == Ok::<Seq<char>, ErrorView>(link@),
            Err(e) => redirect_target(
                status,
                maybe_text(location),
                retry_after,
                envelope_text(envelope),
            ) == Err::<Seq<char>, ErrorView>(e@),
        },
{
    if 300 <= status && status < 400 {
        match location {
            Some(location) => Ok(location),
            None => Err(
                Error::Api {
                    kind: ErrorKind::ServerError,
                    message: "the redirect carried no Location header".to_owned(),
                    status,
                    retry_after: None,
                },
            ),
        }
    } else if 200 <= status && status < 300 {
        Err(Error::Config(FOLLOWED.to_owned()))
    } else {
        Err(Error::from_response(status, retry_after, envelope))
    }
}

/// The failure of a link that was not served.
pub open spec fn refused_file(status: u16, retry_after: Option<Duration>) -> ErrorView {
    ErrorView::Api {
        kind: status_kind(status, retry_after is Some),
        message: "object storage refused the download link with status "@ + decimal_text(
            status as nat,
        ),
        status,
        retry_after,
    }
}

/// Whether a link was served. The status is what separates a lapsed link from a
/// refused one, so the body of a refusal is not read.
pub fn file_served(status: u16, retry_after: Option<Duration>) -> (r: Result<(), Error>)
    ensures
        match r {
            Ok(_) => succeeded(status),
            Err(e) => !succeeded(status) && e@ == refused_file(status, retry_after),
        },
{
    if 200 <= status && status < 300 {
        return Ok(());
    }
    let digits = decimal(status as u64);
    Err(
        Error::Api {
            kind: kind_for_status(status, retry_after),
            message: concat(
                "object storage refused the download link with status ",
                digits.as_str(),
            ),
            status,
            retry_after,
        },
    )
}

/// Whether a byte stands for itself in a path segment.
pub open spec fn unreserved(b: u8) -> bool {
    ||| 65 <= b <= 90
    ||| 97 <= b <= 122
    ||| 48 <= b <= 57
    ||| b == 45
    ||| b == 46
    ||| b == 95
    ||| b == 126
}

/// The upper-case hexadecimal digit that stands for a number below sixteen.
pub open spec fn upper_hex_digit(n: int) -> char {
    if n < 10 {
        (48 + n) as char
    } else {
        (55 + n) as char
    }
}

pub open spec fn encoded_byte(b: u8) -> Seq<char> {
    if unreserved(b) {
        seq![b as char]
    } else {
        seq!['%', upper_hex_digit(b as int / 16), upper_hex_digit(b as int % 16)]
    }
}

/// Bytes with every one that is reserved percent-encoded.
pub open spec fn encoded(bytes: Seq<u8>) -> Seq<char>
    decreases bytes.len(),
{
    if bytes.len() == 0 {
        Seq::empty()
    } else {
        encoded_byte(bytes[0]) + encoded(bytes.skip(1))
    }
}

fn upper_hex(n: u8) -> (c: char)
    requires
        n < 16,
    ensures
        c == upper_hex_digit(n as int),
{
    if n < 10 {
        (48 + n) as char
    } else {
        (55 + n) as char
    }
}

/// Percent-encodes an address for the path it is looked up under.
pub fn encode_path_segment(segment: &str) -> (r: String)
    ensures
        r@ == encoded(vstd::utf8::encode_utf8(segment@)),
{
    let bytes = segment.as_bytes();
    let mut r = String::new();
    assert(bytes@.skip(0) =~= bytes@);
    for i in 0..bytes.len()
        invariant
            r@ + encoded(bytes@.skip(i as int)) == encoded(bytes@),
    {
        let b: u8 = bytes[i];
        assert(bytes@.skip(i as int).skip(1) =~= bytes@.skip(i + 1));
        let ghost before = r@;
        if (65 <= b && b <= 90) || (97 <= b && b <= 122) || (48 <= b && b <= 57) || b == 45 || b
            == 46 || b == 95 || b == 126 {
            r.push(b as char);
        } else {
            r.push('%');
            r.push(upper_hex(b / 16));
            r.push(upper_hex(b % 16));
        }
        assert(r@ =~= before + encoded_byte(b));
        assert(r@ + encoded(bytes@.skip(i + 1)) =~= before + encoded(bytes@.skip(i as int)));
    }
    assert(bytes@.skip(bytes@.len() as int) =~= Seq::empty());
    assert(r@ + encoded(Seq::empty()) =~= r@);
    r
}

/// The number an upper-case hexadecimal digit stands for.
pub open spec fn upper_hex_value(c: char) -> int {
    if c <= '9' {
        c as int - 48
    } else {
        c as int - 55
    }
}

/// The bytes that percent-encoded text stands for.
pub open spec fn decoded(s: Seq<char>) -> Seq<u8>
    decreases s.len(),
{
    if s.len() == 0 {
        Seq::empty()
    } else if s[0] == '%' && s.len() >= 3 {
        seq![(upper_hex_value(s[1]) * 16 + upper_hex_value(s[2])) as u8] + decoded(s.skip(3))
    } else {
        seq![s[0] as u8] + decoded(s.skip(1))
    }
}

/// What was encoded can be read back, so two addresses never share a path.
pub proof fn law_an_encoded_segment_reads_back(bytes: Seq<u8>)
    ensures
        decoded(encoded(bytes)) == bytes,
    decreases bytes.len(),
{
    if bytes.len() > 0 {
        let b = bytes[0];
        let rest = encoded(bytes.skip(1));
        law_an_encoded_segment_reads_back(bytes.skip(1));
        let s = encoded(bytes);
        if unreserved(b) {
            assert(s[0] == b as char);
            assert(s.skip(1) =~= rest);
        } else {
            assert(s[0] == '%');
            assert(s[1] == upper_hex_digit(b as int / 16));
            assert(s[2] == upper_hex_digit(b as int % 16));
            assert(s.skip(3) =~= rest);
        }
        assert(seq![b] + bytes.skip(1) =~= bytes);
    } else {
        assert(encoded(bytes) =~= Seq::empty());
        assert(decoded(Seq::empty()) =~= bytes);
    }
}

/// What is encoded is made of characters that a path leaves as they are: those
/// that stand for themselves, and percent signs.
pub proof fn law_an_encoded_segment_is_plain(bytes: Seq<u8>, i: int)
    requires
        0 <= i < encoded(bytes).len(),
    ensures
        (encoded(bytes)[i] as u32) < 128,
        encoded(bytes)[i] == '%' || unreserved(encoded(bytes)[i] as u8),
    decreases bytes.len(),
{
    if bytes.len() > 0 {
        let first = encoded_byte(bytes[0]);
        if i >= first.len() {
            law_an_encoded_segment_is_plain(bytes.skip(1), i - first.len());
        }
    }
}

/// Segments are encoded byte by byte, so what is put together is encoded as its
/// parts are.
pub proof fn law_encoding_joins(a: Seq<u8>, b: Seq<u8>)
    ensures
        encoded(a + b) == encoded(a) + encoded(b),
    decreases a.len(),
{
    if a.len() == 0 {
        assert(a + b =~= b);
        assert(encoded(a) + encoded(b) =~= encoded(b));
    } else {
        law_encoding_joins(a.skip(1), b);
        assert((a + b).skip(1) =~= a.skip(1) + b);
        assert(encoded(a + b) =~= encoded(a) + encoded(b));
    }
}

/// A segment whose bytes all stand for themselves is left as it is.
pub proof fn law_a_plain_segment_is_left_as_it_is(bytes: Seq<u8>)
    requires
        forall|i: int| 0 <= i < bytes.len() ==> unreserved(#[trigger] bytes[i]),
    ensures
        encoded(bytes) == bytes.map_values(|b: u8| b as char),
    decreases bytes.len(),
{
    let rest = bytes.skip(1);
    if bytes.len() > 0 {
        assert forall|i: int| 0 <= i < rest.len() implies unreserved(#[trigger] rest[i]) by {
            assert(rest[i] == bytes[i + 1]);
        }
        law_a_plain_segment_is_left_as_it_is(rest);
        assert(unreserved(bytes[0]));
    }
    assert(encoded(bytes) =~= bytes.map_values(|b: u8| b as char));
}

/// When an HTTP date says that something happens, in seconds since 1970.
pub uninterp spec fn http_date(text: Seq<char>) -> Option<i64>;

/// `chrono::DateTime::parse_from_rfc2822`, and the `timestamp` of what it reads.
/// Which texts are dates, and which moment each of them is, is not stated.
#[verifier::external_body]
fn parse_http_date(text: &str) -> (r: Option<i64>)
    ensures
        r == http_date(text@),
{
    chrono::DateTime::parse_from_rfc2822(text).ok().map(|when| when.timestamp())
}

/// How many seconds a wait is: a number of seconds is that many, and a date is
/// as many as are left until it, none when it has passed.
pub open spec fn wait_seconds(text: Seq<char>, when: Option<i64>, now: i64) -> Option<nat> {
    match parsed_u64(text) {
        Some(seconds) => Some(seconds as nat),
        None => match when {
            Some(when) => Some(
                if when > now {
                    (when - now) as nat
                } else {
                    0
                },
            ),
            None => None,
        },
    }
}

/// How long a server asks to wait, by what the text of its wait reads as and
/// what time it is.
pub fn wait_for(text: &str, when: Option<i64>, now: i64) -> (r: Option<Duration>)
    ensures
        match r {
            Some(d) => wait_seconds(text@, when, now) matches Some(seconds) && d@ == seconds
                * NANOS_PER_SEC,
            None => wait_seconds(text@, when, now) is None,
        },
{
    match parse_u64(text) {
        Some(seconds) => Some(Duration::from_secs(seconds)),
        None => match when {
            Some(when) => {
                let left: i128 = when as i128 - now as i128;
                let seconds: u64 = if left > 0 {
                    left as u64
                } else {
                    0
                };
                Some(Duration::from_secs(seconds))
            },
            None => None,
        },
    }
}

/// How long a server asks to wait. `Retry-After` is seconds or an HTTP date. Its
/// absence on a 429 is what makes that 429 a spent allowance rather than a
/// throttle, so a header that does not parse reads as absent rather than as zero.
pub fn parse_retry_after(header: Option<&str>, now: i64) -> (r: Option<Duration>)
    ensures
        match header {
            Some(header) => match r {
                Some(d) => wait_seconds(trimmed(header@), http_date(trimmed(header@)), now) matches Some(
                    seconds,
                ) && d@ == seconds * NANOS_PER_SEC,
                None => wait_seconds(trimmed(header@), http_date(trimmed(header@)), now) is None,
            },
            None => r is None,
        },
{
    match header {
        Some(header) => {
            let value = trim(header);
            let when = parse_http_date(value.as_str());
            wait_for(value.as_str(), when, now)
        },
        None => None,
    }
}

/// The link a redirect hands over is its location, character for character, for
/// every status from 300 to 399. Without a location it fails as a server does. A
/// status that says it succeeded means the redirect was followed, which no retry
/// mends, and any other is the refusal it would be anywhere.
pub proof fn law_a_redirect_hands_its_location_over_whole(
    status: u16,
    location: Seq<char>,
    maybe: Option<Seq<char>>,
    retry_after: Option<Duration>,
    said: Option<Seq<char>>,
)
    ensures
        300 <= status <= 399 ==> redirect_target(status, Some(location), retry_after, said) == Ok::<
            Seq<char>,
            ErrorView,
        >(location),
        300 <= status <= 399 ==> (redirect_target(status, None, retry_after, said) matches Err(e)
            && e.kind() == ErrorKind::ServerError && e.retryable() && e.status() == Some(status)
            && e.retry_after() is None && e.message() == "the redirect carried no Location header"@),
        200 <= status <= 299 ==> (redirect_target(status, maybe, retry_after, said) matches Err(e)
            && e.kind() == ErrorKind::BadRequest && !e.retryable() && e.status() is None
            && e.message()
            == "the download redirect was followed, so its Location is gone: build the reqwest::Client you passed to ClientBuilder::http_client with reqwest::redirect::Policy::none()"@),
        status < 200 || status >= 400 ==> redirect_target(status, maybe, retry_after, said) == Err::<
            Seq<char>,
            ErrorView,
        >(refused_response(status, retry_after, said)),
{
}

/// A request to the API is sent to the path behind the base URL, with the query and
/// the timeout it was given. It carries the key as a bearer token when there is one,
/// and nothing when there is none or it is empty.
pub proof fn law_a_read_carries_what_it_was_given(
    base_url: Seq<char>,
    key: Seq<char>,
    maybe: Option<Seq<char>>,
    path: Seq<char>,
    query: Seq<(Seq<char>, Seq<char>)>,
    ips: Seq<Seq<char>>,
    timeout: Duration,
)
    ensures
        ({
            let read = read_request(base_url, maybe, path, query, timeout);
            let batch = batch_request(base_url, maybe, path, ips, timeout);
            &&& read.method == Method::Get && batch.method == Method::Post
            &&& read.url == base_url + path && batch.url == base_url + path
            &&& read.query == query && batch.query == Seq::<(Seq<char>, Seq<char>)>::empty()
            &&& read.body is Empty && batch.body == BodyView::Batch(ips)
            &&& read.timeout == Some(timeout) && batch.timeout == Some(timeout)
            &&& maybe is None ==> read.authorization is None && batch.authorization is None
        }),
        key.len() > 0 ==> read_request(base_url, Some(key), path, query, timeout).authorization
            == Some("Bearer "@ + key) && batch_request(
            base_url,
            Some(key),
            path,
            ips,
            timeout,
        ).authorization == Some("Bearer "@ + key),
        key.len() == 0 ==> read_request(base_url, Some(key), path, query, timeout).authorization
            is None && batch_request(base_url, Some(key), path, ips, timeout).authorization is None,
{
}

/// A request that authorizes itself, and one to the authorization server, carries no
/// credential. The first goes to its own link, whole and without a bound; the others
/// to the path behind the base URL, with the fields and the timeout they were given.
pub proof fn law_a_keyless_request_carries_what_it_was_given(
    base_url: Seq<char>,
    path: Seq<char>,
    form: Seq<(Seq<char>, Seq<char>)>,
    timeout: Duration,
)
    ensures
        ({
            let file = file_request(base_url);
            let read = keyless_request(base_url, path, timeout);
            let sent = form_request(base_url, path, form, timeout);
            &&& file.method == Method::Get && read.method == Method::Get && sent.method
                == Method::Post
            &&& file.url == base_url
            &&& read.url == base_url + path && sent.url == base_url + path
            &&& file.query.len() == 0 && read.query.len() == 0 && sent.query.len() == 0
            &&& file.authorization is None && read.authorization is None && sent.authorization
                is None
            &&& file.body is Empty && read.body is Empty && sent.body == BodyView::Form(form)
            &&& file.timeout is None && read.timeout == Some(timeout) && sent.timeout == Some(
                timeout,
            )
        }),
{
}

/// A request reads as it is: its method, link, query, credential, body and bound.
pub proof fn law_a_request_reads_as_it_is(request: Request)
    ensures
        request@.method == request.method,
        request@.url == request.url@,
        request@.query.len() == request.query@.len(),
        forall|i: int|
            0 <= i < request.query@.len() ==> #[trigger] request@.query[i] == (
                request.query@[i].0@,
                request.query@[i].1@,
            ),
        request.authorization is None ==> request@.authorization is None,
        request.authorization matches Some(text) ==> request@.authorization == Some(text@),
        request.body is Empty ==> request@.body is Empty,
        request.body matches Body::Batch(ips) ==> (request@.body matches BodyView::Batch(sent)
            && sent.len() == ips@.len() && forall|i: int|
            0 <= i < ips@.len() ==> #[trigger] sent[i] == ips@[i]@),
        request.body matches Body::Form(form) ==> (request@.body matches BodyView::Form(sent)
            && sent.len() == form@.len() && forall|i: int|
            0 <= i < form@.len() ==> #[trigger] sent[i] == (form@[i].0@, form@[i].1@)),
        request@.timeout == request.timeout,
{
}

/// Exactly the statuses from 200 to 299 are a success. An answer that succeeded and
/// does not read is the server's failure: it keeps its status, is worth retrying,
/// and says why it does not read.
pub proof fn law_success_is_a_status_in_the_two_hundreds(status: u16, why: Seq<char>)
    ensures
        succeeded(status) == (200 <= status <= 299),
        undecodable(status, why).kind() == ErrorKind::ServerError,
        undecodable(status, why).retryable(),
        status != 0 ==> undecodable(status, why).status() == Some(status),
        undecodable(status, why).retry_after() is None,
        undecodable(status, why).message() == "could not decode the response: "@ + why,
{
}

/// A link that is refused fails as a refusal of the API with the same status and
/// wait does, and says the status.
pub proof fn law_a_refused_link_fails_as_the_api_would(
    status: u16,
    retry_after: Option<Duration>,
    said: Option<Seq<char>>,
)
    ensures
        refused_file(status, retry_after).kind() == refused_response(
            status,
            retry_after,
            said,
        ).kind(),
        refused_file(status, retry_after).retryable() == refused_response(
            status,
            retry_after,
            said,
        ).retryable(),
        status != 0 ==> refused_file(status, retry_after).status() == Some(status),
        refused_file(status, retry_after).retry_after() == retry_after,
        refused_file(status, retry_after).message()
            == "object storage refused the download link with status "@ + decimal_text(
            status as nat,
        ),
{
}

/// An ASCII letter, a digit, a hyphen, a dot, an underscore and a tilde stand for
/// themselves in a path. Every other byte is a percent sign and its two hexadecimal
/// digits in upper case.
pub proof fn law_what_stands_for_itself_in_a_path(b: u8)
    ensures
        ({
            let plain = 'A' <= b as char <= 'Z' || 'a' <= b as char <= 'z' || '0' <= b as char
                <= '9' || b as char == '-' || b as char == '.' || b as char == '_' || b as char
                == '~';
            let digit = |n: int|
                if n < 10 {
                    (48 + n) as char
                } else {
                    (65 + n - 10) as char
                };
            encoded(seq![b]) == (if plain {
                seq![b as char]
            } else {
                seq!['%', digit(b as int / 16), digit(b as int % 16)]
            })
        }),
{
    assert(seq![b].skip(1) =~= Seq::empty());
    assert(encoded(Seq::<u8>::empty()) =~= Seq::empty());
    assert(encoded(seq![b]) =~= encoded_byte(b));
}

/// A wait in seconds is so many seconds, whatever the time is. A wait until a date is
/// what is left until it, and nothing once it has passed. A wait that reads as
/// neither is none.
pub proof fn law_a_wait_is_seconds_or_until_a_date(
    n: nat,
    text: Seq<char>,
    when: Option<i64>,
    now: i64,
)
    ensures
        n <= u64::MAX ==> wait_seconds(decimal_text(n), when, now) == Some(n),
        parsed_u64(text) is None && when is None ==> wait_seconds(text, when, now) is None,
        parsed_u64(text) is None ==> (when matches Some(then) ==> {
            &&& then >= now ==> (wait_seconds(text, when, now) matches Some(left) && now + left
                == then)
            &&& then < now ==> wait_seconds(text, when, now) == Some(0nat)
        }),
{
    crate::text::law_decimal_reads_back(n);
}

}
