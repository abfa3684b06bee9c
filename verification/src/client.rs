//! A client of the API: its options, and the decisions of one lookup.

use vstd::prelude::*;

use crate::bogon::{as_written, bogon_lookup, bogon_text, bogon_view, is_bogon};
use crate::database::Database;
use crate::error::{Error, ErrorView};
use crate::flight::{boarded, restate, restated, Boarding, FlightsView};
use crate::lookup::{AnswerView, Lookup, LookupResponse, LookupView};
use crate::oauth::OauthApi;
use crate::retry::{base_delay, Retry};
use crate::text::{concat, debug, debug_text, maybe_text, trim_end_slashes, without_end_slashes};
use crate::time::{longest, Duration, NANOS_PER_SEC};
use crate::transport::{encode_path_segment, encoded, read_request, Request, Transport};

verus! {

/// The production API.
pub const DEFAULT_BASE_URL: &'static str = "https://api.vpndetection.io";

/// How many addresses the cache holds unless told otherwise.
pub const DEFAULT_CACHE_CAPACITY: u64 = 10_000;

/// How many seconds an answer is kept unless told otherwise.
pub const DEFAULT_CACHE_TTL_SECS: u64 = 3600;

/// How many requests a batch keeps in flight unless told otherwise.
pub const DEFAULT_CONCURRENCY: usize = 8;

/// How many further attempts a transient failure gets unless told otherwise.
pub const DEFAULT_RETRIES: u32 = 2;

/// How many seconds one attempt may take unless told otherwise.
pub const DEFAULT_TIMEOUT_SECS: u64 = 30;

/// How the answers of one client are kept.
#[derive(Clone, Copy, Debug)]
pub struct CacheSize {
    pub capacity: u64,
    pub ttl: Duration,
}

/// A client of the API: where its requests go and how it treats their answers.
#[derive(Clone, Debug)]
pub struct Client {
    pub transport: Transport,
    /// How answers are kept, or that they are not.
    pub cache: Option<CacheSize>,
    pub concurrency: usize,
    pub retries: u32,
    pub timeout: Duration,
}

/// What a client is, with spans of time in nanoseconds.
pub struct ClientView {
    pub base_url: Seq<char>,
    pub api_key: Option<Seq<char>>,
    pub cache: Option<(u64, nat)>,
    pub concurrency: usize,
    pub retries: u32,
    pub timeout: nat,
}

pub open spec fn cache_view(cache: Option<CacheSize>) -> Option<(u64, nat)> {
    match cache {
        Some(size) => Some((size.capacity, size.ttl@)),
        None => None,
    }
}

impl View for Client {
    type V = ClientView;

    open spec fn view(&self) -> ClientView {
        ClientView {
            base_url: self.transport.base_url@,
            api_key: maybe_text(self.transport.api_key),
            cache: cache_view(self.cache),
            concurrency: self.concurrency,
            retries: self.retries,
            timeout: self.timeout@,
        }
    }
}

impl ClientView {
    /// A client can do what it is for: it keeps at least one request in flight
    /// and one answer for some time, and every attempt has some time.
    pub open spec fn usable(self) -> bool {
        &&& self.concurrency >= 1
        &&& self.timeout > 0
        &&& self.cache matches Some((capacity, ttl)) ==> capacity >= 1 && ttl > 0
    }
}

/// Builds a client. With nothing set it queries production on the free tier.
#[derive(Debug)]
pub struct ClientBuilder {
    pub api_key: Option<String>,
    pub base_url: Option<String>,
    pub cache_capacity: Option<u64>,
    pub cache_ttl: Option<Duration>,
    pub cache_off: bool,
    pub concurrency: Option<usize>,
    pub retries: Option<u32>,
    pub timeout: Option<Duration>,
}

/// Whether the text of a URL is one, and whether that URL has a host; or why it
/// is none.
pub uninterp spec fn parsed_url(text: Seq<char>) -> Result<bool, Seq<char>>;

pub open spec fn url_view(parsed: Result<bool, String>) -> Result<bool, Seq<char>> {
    match parsed {
        Ok(has_host) => Ok(has_host),
        Err(why) => Err(why@),
    }
}

pub open spec fn url_has_host(parsed: Result<bool, String>) -> bool {
    parsed matches Ok(has_host) && has_host
}

/// `reqwest::Url::parse`, and the `has_host` of what it reads or the text of its
/// error. The production URL has a host. What any other text reads as is not
/// stated.
#[verifier::external_body]
fn parse_url(text: &str) -> (r: Result<bool, String>)
    ensures
        url_view(r) == parsed_url(text@),
        text@ == DEFAULT_BASE_URL@ ==> url_has_host(r),
{
    reqwest::Url::parse(text).map(|url| url.has_host()).map_err(|e| e.to_string())
}

pub open spec fn span_or(span: Option<Duration>, secs: u64) -> nat {
    match span {
        Some(span) => span@,
        None => (secs * NANOS_PER_SEC) as nat,
    }
}

fn or_secs(span: Option<Duration>, secs: u64) -> (r: Duration)
    ensures
        r@ == span_or(span, secs),
        span matches Some(span) ==> r == span,
{
    match span {
        Some(span) => span,
        None => Duration::from_secs(secs),
    }
}

impl ClientBuilder {
    /// The URL a client is built for.
    pub open spec fn url(self) -> Seq<char> {
        match self.base_url {
            Some(url) => url@,
            None => DEFAULT_BASE_URL@,
        }
    }

    /// What building gives, by how the URL is shown and what it reads as: the
    /// client, or the first thing that is wrong.
    pub open spec fn built(self, shown: Seq<char>, parsed: Result<bool, Seq<char>>) -> Result<
        ClientView,
        ErrorView,
    > {
        let capacity = match self.cache_capacity {
            Some(capacity) => capacity,
            None => DEFAULT_CACHE_CAPACITY,
        };
        let ttl = span_or(self.cache_ttl, DEFAULT_CACHE_TTL_SECS);
        let timeout = span_or(self.timeout, DEFAULT_TIMEOUT_SECS);
        match parsed {
            Err(why) => Err(ErrorView::Config("base url "@ + shown + ": "@ + why)),
            Ok(has_host) => if !has_host {
                Err(ErrorView::Config("base url "@ + shown + " needs a scheme and a host"@))
            } else if self.concurrency == Some(0usize) {
                Err(ErrorView::Config("concurrency must be at least 1"@))
            } else if capacity == 0 {
                Err(ErrorView::Config("cache capacity must be at least 1"@))
            } else if ttl == 0 {
                Err(ErrorView::Config("cache ttl must be positive"@))
            } else if timeout == 0 {
                Err(ErrorView::Config("timeout must be positive"@))
            } else {
                Ok(
                    ClientView {
                        base_url: without_end_slashes(self.url()),
                        api_key: maybe_text(self.api_key),
                        cache: if self.cache_off {
                            None
                        } else {
                            Some((capacity, ttl))
                        },
                        concurrency: match self.concurrency {
                            Some(n) => n,
                            None => DEFAULT_CONCURRENCY,
                        },
                        retries: match self.retries {
                            Some(n) => n,
                            None => DEFAULT_RETRIES,
                        },
                        timeout,
                    },
                )
            },
        }
    }

    pub fn new() -> (r: Self)
        ensures
            r.api_key is None,
            r.base_url is None,
            r.cache_capacity is None,
            r.cache_ttl is None,
            !r.cache_off,
            r.concurrency is None,
            r.retries is None,
            r.timeout is None,
    {
        ClientBuilder {
            api_key: None,
            base_url: None,
            cache_capacity: None,
            cache_ttl: None,
            cache_off: false,
            concurrency: None,
            retries: None,
            timeout: None,
        }
    }

    /// Authenticates as the organization of a key.
    pub fn api_key(self, key: String) -> (r: Self)
        ensures
            r == (ClientBuilder { api_key: Some(key), ..self }),
    {
        ClientBuilder { api_key: Some(key), ..self }
    }

    /// Points the client at a different deployment of the API.
    pub fn base_url(self, url: String) -> (r: Self)
        ensures
            r == (ClientBuilder { base_url: Some(url), ..self }),
    {
        ClientBuilder { base_url: Some(url), ..self }
    }

    /// Sizes the answer cache.
    pub fn cache(self, capacity: u64, ttl: Duration) -> (r: Self)
        ensures
            r == (ClientBuilder {
                cache_capacity: Some(capacity),
                cache_ttl: Some(ttl),
                cache_off: false,
                ..self
            }),
    {
        ClientBuilder {
            cache_capacity: Some(capacity),
            cache_ttl: Some(ttl),
            cache_off: false,
            ..self
        }
    }

    /// Turns caching off, so every lookup of an address that is no bogon is
    /// served.
    pub fn no_cache(self) -> (r: Self)
        ensures
            r == (ClientBuilder { cache_off: true, ..self }),
    {
        ClientBuilder { cache_off: true, ..self }
    }

    /// How many requests a batch keeps in flight.
    pub fn concurrency(self, n: usize) -> (r: Self)
        ensures
            r == (ClientBuilder { concurrency: Some(n), ..self }),
    {
        ClientBuilder { concurrency: Some(n), ..self }
    }

    /// How many further attempts a transient failure gets.
    pub fn retries(self, n: u32) -> (r: Self)
        ensures
            r == (ClientBuilder { retries: Some(n), ..self }),
    {
        ClientBuilder { retries: Some(n), ..self }
    }

    /// How long one attempt at a request may take, from connecting to the last
    /// byte of the answer. A file transfer is exempt.
    pub fn timeout(self, timeout: Duration) -> (r: Self)
        ensures
            r == (ClientBuilder { timeout: Some(timeout), ..self }),
    {
        ClientBuilder { timeout: Some(timeout), ..self }
    }

    /// Builds the client from how its URL is shown and what that URL reads as.
    pub fn build_with(self, shown: &str, parsed: Result<bool, String>) -> (r: Result<
        Client,
        Error,
    >)
        ensures
            match r {
                Ok(client) => self.built(shown@, url_view(parsed)) == Ok::<ClientView, ErrorView>(
                    client@,
                ),
                Err(e) => self.built(shown@, url_view(parsed)) == Err::<ClientView, ErrorView>(e@),
            },
    {
        let base_url = match self.base_url {
            Some(url) => url,
            None => DEFAULT_BASE_URL.to_owned(),
        };
        match parsed {
            Err(why) => {
                let mut message = concat("base url ", shown);
                message.append(": ");
                message.append(why.as_str());
                return Err(Error::Config(message));
            },
            Ok(has_host) => if !has_host {
                let mut message = concat("base url ", shown);
                message.append(" needs a scheme and a host");
                return Err(Error::Config(message));
            },
        }
        let concurrency: usize = match self.concurrency {
            Some(n) => n,
            None => DEFAULT_CONCURRENCY,
        };
        if concurrency == 0 {
            return Err(Error::Config("concurrency must be at least 1".to_owned()));
        }
        let capacity: u64 = match self.cache_capacity {
            Some(n) => n,
            None => DEFAULT_CACHE_CAPACITY,
        };
        let ttl = or_secs(self.cache_ttl, DEFAULT_CACHE_TTL_SECS);
        if capacity == 0 {
            return Err(Error::Config("cache capacity must be at least 1".to_owned()));
        }
        if ttl.is_zero() {
            return Err(Error::Config("cache ttl must be positive".to_owned()));
        }
        let timeout = or_secs(self.timeout, DEFAULT_TIMEOUT_SECS);
        if timeout.is_zero() {
            return Err(Error::Config("timeout must be positive".to_owned()));
        }
        Ok(
            Client {
                transport: Transport::new(trim_end_slashes(base_url.as_str()), self.api_key),
                cache: if self.cache_off {
                    None
                } else {
                    Some(CacheSize { capacity, ttl })
                },
                concurrency,
                retries: match self.retries {
                    Some(n) => n,
                    None => DEFAULT_RETRIES,
                },
                timeout,
            },
        )
    }

    /// Builds the client, or says what is wrong with its options.
    pub fn build(self) -> (r: Result<Client, Error>)
        ensures
            match r {
                Ok(client) => self.built(debug_text(self.url()), parsed_url(self.url())) == Ok::<
                    ClientView,
                    ErrorView,
                >(client@),
                Err(e) => self.built(debug_text(self.url()), parsed_url(self.url())) == Err::<
                    ClientView,
                    ErrorView,
                >(e@),
            },
            self.base_url is None ==> parsed_url(self.url()) == Ok::<bool, Seq<char>>(true),
    {
        let url = match &self.base_url {
            Some(url) => url.clone(),
            None => DEFAULT_BASE_URL.to_owned(),
        };
        let parsed = parse_url(url.as_str());
        let shown = debug(url.as_str());
        self.build_with(shown.as_str(), parsed)
    }
}

impl Default for ClientBuilder {
    fn default() -> (r: Self)
        ensures
            r.api_key is None,
            r.base_url is None,
            r.cache_capacity is None,
            r.cache_ttl is None,
            !r.cache_off,
            r.concurrency is None,
            r.retries is None,
            r.timeout is None,
    {
        ClientBuilder::new()
    }
}

/// Whatever builds, builds a client that can do what it is for.
pub proof fn law_what_is_built_is_usable(
    builder: ClientBuilder,
    shown: Seq<char>,
    parsed: Result<bool, Seq<char>>,
)
    requires
        builder.built(shown, parsed) is Ok,
    ensures
        builder.built(shown, parsed) matches Ok(client) && client.usable(),
{
}

/// One call's overrides.
#[derive(Clone, Copy, Debug)]
pub struct LookupOptions {
    pub retries: Option<u32>,
    pub timeout: Option<Duration>,
}

impl LookupOptions {
    pub fn new() -> (r: Self)
        ensures
            r == (LookupOptions { retries: None, timeout: None }),
    {
        LookupOptions { retries: None, timeout: None }
    }

    /// Overrides the client's retry count for this call.
    pub fn retries(self, n: u32) -> (r: Self)
        ensures
            r == (LookupOptions { retries: Some(n), ..self }),
    {
        LookupOptions { retries: Some(n), ..self }
    }

    /// Overrides the client's timeout for this call, still per attempt.
    pub fn timeout(self, timeout: Duration) -> (r: Self)
        ensures
            r == (LookupOptions { timeout: Some(timeout), ..self }),
    {
        LookupOptions { timeout: Some(timeout), ..self }
    }
}

impl Default for LookupOptions {
    fn default() -> (r: Self)
        ensures
            r == (LookupOptions { retries: None, timeout: None }),
    {
        LookupOptions::new()
    }
}

/// What an option says, or what the client says when it says nothing.
pub open spec fn or_client<T>(option: Option<T>, client: T) -> T {
    match option {
        Some(value) => value,
        None => client,
    }
}

pub(crate) fn given_or<T>(option: Option<T>, client: T) -> (r: T)
    ensures
        r == or_client(option, client),
{
    match option {
        Some(value) => value,
        None => client,
    }
}

/// Where one lookup is.
#[derive(Clone, Copy, Debug, PartialEq, Eq, Structural)]
pub enum Phase {
    /// The cache is being read.
    Reading,
    /// The address was missed, and a flight for it is being boarded.
    Boarding,
    /// The flight that was joined is awaited.
    Joining,
    /// A flight is led, and the cache is being read again.
    Checking,
    /// The request is in flight.
    Asking,
    /// A failure is being waited out.
    Waiting,
    /// The answer is being stored.
    Storing,
    /// The flight that is led is landing.
    Landing,
    /// The lookup is over.
    Done,
}

/// What happened to a lookup.
#[derive(Debug)]
pub enum Event {
    /// The cache had this for the address.
    Read(Option<Lookup>),
    /// The address had no flight, and has one now, which this lookup leads.
    Led,
    /// The address has a flight, which this lookup joined.
    Joined,
    /// The flight that was joined landed with this, or was given up.
    Arrived(Option<Result<Lookup, Error>>),
    /// The request was answered, or failed.
    Answered(Result<LookupResponse, Error>),
    Slept,
    Stored,
    /// The flight that is led has landed.
    Landed,
}

/// What a lookup needs done next.
#[derive(Debug)]
pub enum Action {
    /// Read the cache for the address.
    Read,
    /// Board a flight for the address.
    Board,
    /// Await the flight that was joined.
    Await,
    /// Send the request.
    Send,
    Sleep(Duration),
    /// Keep this answer under the address.
    Store(Lookup),
    /// Land the flight that is led, with this for everyone who joined it.
    Land(Result<Lookup, Error>),
    /// Hand this to the caller.
    Return(Result<Lookup, Error>),
}

pub enum EventView {
    Read(Option<LookupView>),
    Led,
    Joined,
    Arrived(Option<Result<LookupView, ErrorView>>),
    Answered(Result<AnswerView, ErrorView>),
    Slept,
    Stored,
    Landed,
}

pub enum ActionView {
    Read,
    Board,
    Await,
    Send,
    Sleep(nat),
    Store(LookupView),
    Land(Result<LookupView, ErrorView>),
    Return(Result<LookupView, ErrorView>),
    /// The event was not one the lookup was waiting for.
    Nothing,
}

/// One answer, or the failure to get it.
pub open spec fn outcome_view(outcome: Result<Lookup, Error>) -> Result<LookupView, ErrorView> {
    match outcome {
        Ok(lookup) => Ok(lookup@),
        Err(e) => Err(e@),
    }
}

pub open spec fn hit_view(hit: Option<Lookup>) -> Option<LookupView> {
    match hit {
        Some(lookup) => Some(lookup@),
        None => None,
    }
}

pub open spec fn arrival_view(landed: Option<Result<Lookup, Error>>) -> Option<
    Result<LookupView, ErrorView>,
> {
    match landed {
        Some(outcome) => Some(outcome_view(outcome)),
        None => None,
    }
}

impl View for Event {
    type V = EventView;

    open spec fn view(&self) -> EventView {
        match self {
            Event::Read(hit) => EventView::Read(hit_view(*hit)),
            Event::Led => EventView::Led,
            Event::Joined => EventView::Joined,
            Event::Arrived(landed) => EventView::Arrived(arrival_view(*landed)),
            Event::Answered(Ok(answer)) => EventView::Answered(Ok(answer@)),
            Event::Answered(Err(e)) => EventView::Answered(Err(e@)),
            Event::Slept => EventView::Slept,
            Event::Stored => EventView::Stored,
            Event::Landed => EventView::Landed,
        }
    }
}

impl View for Action {
    type V = ActionView;

    open spec fn view(&self) -> ActionView {
        match self {
            Action::Read => ActionView::Read,
            Action::Board => ActionView::Board,
            Action::Await => ActionView::Await,
            Action::Send => ActionView::Send,
            Action::Sleep(wait) => ActionView::Sleep(wait@),
            Action::Store(lookup) => ActionView::Store(lookup@),
            Action::Land(outcome) => ActionView::Land(outcome_view(*outcome)),
            Action::Return(outcome) => ActionView::Return(outcome_view(*outcome)),
        }
    }
}

impl Event {
    /// What boarding comes to for a lookup: it joined the flight of its address,
    /// or leads a new one.
    pub fn boarded(boarding: &Boarding) -> (r: Event)
        ensures
            r@ == (if boarding.joined@.len() > 0 {
                EventView::Joined
            } else {
                EventView::Led
            }),
    {
        if boarding.joined.len() > 0 {
            Event::Joined
        } else {
            Event::Led
        }
    }
}

/// One lookup: what it asks, what it has left to spend and where it is.
#[derive(Debug)]
pub struct LookupCall {
    pub path: String,
    pub timeout: Duration,
    pub caching: bool,
    pub retry: Retry,
    pub phase: Phase,
    pub kept: Option<Result<Lookup, Error>>,
}

pub struct CallView {
    pub path: Seq<char>,
    pub timeout: Duration,
    pub caching: bool,
    pub remaining: u32,
    pub delay: nat,
    pub phase: Phase,
    /// What is handed over once it is stored and has landed.
    pub kept: Option<Result<LookupView, ErrorView>>,
}

impl View for LookupCall {
    type V = CallView;

    open spec fn view(&self) -> CallView {
        CallView {
            path: self.path@,
            timeout: self.timeout,
            caching: self.caching,
            remaining: self.retry.remaining,
            delay: self.retry.delay@,
            phase: self.phase,
            kept: arrival_view(self.kept),
        }
    }
}

/// An answer the API served.
pub open spec fn served(answer: AnswerView) -> LookupView {
    LookupView { is_bogon: false, answer }
}

/// How long a failure is waited out, in nanoseconds, or that it is final.
pub open spec fn wait_of(remaining: u32, delay: nat, failure: ErrorView) -> Option<nat> {
    if remaining == 0 || !failure.retryable() {
        None
    } else {
        match failure.retry_after() {
            Some(wait) => Some(wait@),
            None => Some(delay),
        }
    }
}

impl CallView {
    /// Whether an event is one the lookup is waiting for.
    pub open spec fn expects(self, event: EventView) -> bool {
        match self.phase {
            Phase::Reading => event is Read,
            Phase::Boarding => event is Led || event is Joined,
            Phase::Joining => event is Arrived,
            Phase::Checking => event is Read,
            Phase::Asking => event is Answered,
            Phase::Waiting => event is Slept,
            Phase::Storing => event is Stored && self.kept is Some,
            Phase::Landing => event is Landed && self.kept is Some,
            Phase::Done => false,
        }
    }

    /// A lookup that leads a flight and has its outcome: everyone who joined the
    /// flight is handed it before the caller is.
    pub open spec fn lands(self, outcome: Result<LookupView, ErrorView>) -> (CallView, ActionView) {
        (
            CallView { phase: Phase::Landing, kept: Some(outcome), ..self },
            ActionView::Land(restated(outcome)),
        )
    }

    pub open spec fn hands(self, outcome: Result<LookupView, ErrorView>) -> (
        CallView,
        ActionView,
    ) {
        (CallView { phase: Phase::Done, kept: None, ..self }, ActionView::Return(outcome))
    }

    /// What an event does to a lookup, and what it needs done next.
    pub open spec fn next(self, event: EventView) -> (CallView, ActionView) {
        if !self.expects(event) {
            (self, ActionView::Nothing)
        } else {
            match event {
                EventView::Read(Some(hit)) => if self.phase == Phase::Checking {
                    self.lands(Ok(hit))
                } else {
                    self.hands(Ok(hit))
                },
                EventView::Read(None) => if self.phase == Phase::Checking {
                    (CallView { phase: Phase::Asking, ..self }, ActionView::Send)
                } else {
                    (CallView { phase: Phase::Boarding, ..self }, ActionView::Board)
                },
                EventView::Led => (
                    CallView { phase: Phase::Checking, ..self },
                    ActionView::Read,
                ),
                EventView::Joined => (
                    CallView { phase: Phase::Joining, ..self },
                    ActionView::Await,
                ),
                EventView::Arrived(Some(outcome)) => self.hands(outcome),
                EventView::Arrived(None) => (
                    CallView { phase: Phase::Reading, ..self },
                    ActionView::Read,
                ),
                EventView::Answered(Ok(answer)) => if self.caching {
                    (
                        CallView {
                            phase: Phase::Storing,
                            kept: Some(Ok(served(answer))),
                            ..self
                        },
                        ActionView::Store(served(answer)),
                    )
                } else {
                    self.hands(Ok(served(answer)))
                },
                EventView::Answered(Err(failure)) => match wait_of(
                    self.remaining,
                    self.delay,
                    failure,
                ) {
                    Some(wait) => (
                        CallView {
                            phase: Phase::Waiting,
                            remaining: (self.remaining - 1) as u32,
                            delay: self.delay * 2,
                            ..self
                        },
                        ActionView::Sleep(wait),
                    ),
                    None => if self.caching {
                        self.lands(Err(failure))
                    } else {
                        self.hands(Err(failure))
                    },
                },
                EventView::Slept => (
                    CallView { phase: Phase::Asking, ..self },
                    ActionView::Send,
                ),
                EventView::Stored => self.lands(self.kept->0),
                EventView::Landed => self.hands(self.kept->0),
            }
        }
    }
}

/// Where a lookup of an address starts, and what it needs done first. A bogon is
/// answered at once, and an address that answers are kept of is read first.
pub open spec fn lookup_start(
    ip: Seq<char>,
    caching: bool,
    retries: u32,
    timeout: Duration,
) -> (CallView, ActionView) {
    let fresh = CallView {
        path: lookup_path(ip),
        timeout,
        caching,
        remaining: retries,
        delay: base_delay(),
        phase: Phase::Asking,
        kept: None,
    };
    if bogon_text(ip) {
        (CallView { phase: Phase::Done, ..fresh }, ActionView::Return(Ok(bogon_view(ip))))
    } else if caching {
        (CallView { phase: Phase::Reading, ..fresh }, ActionView::Read)
    } else {
        (fresh, ActionView::Send)
    }
}

/// Where a lookup of the calling address starts: it is asked, and never kept.
pub open spec fn own_start(retries: u32, timeout: Duration) -> CallView {
    CallView {
        path: "/myip"@,
        timeout,
        caching: false,
        remaining: retries,
        delay: base_delay(),
        phase: Phase::Asking,
        kept: None,
    }
}

/// The path an address is looked up under.
pub open spec fn lookup_path(ip: Seq<char>) -> Seq<char> {
    "/"@ + encoded(vstd::utf8::encode_utf8(ip))
}

impl LookupCall {
    /// The request this lookup sends.
    pub fn request(&self, client: &Client) -> (r: Request)
        ensures
            r@ == read_request(
                client@.base_url,
                client@.api_key,
                self@.path,
                Seq::empty(),
                self@.timeout,
            ),
    {
        let query: Vec<(String, String)> = Vec::new();
        assert(crate::transport::pair_texts(query@) =~= Seq::empty());
        client.transport.get_json(self.path.as_str(), query, self.timeout)
    }

    fn land(&mut self, outcome: Result<Lookup, Error>) -> (r: Action)
        ensures
            (final(self)@, r@) == old(self)@.lands(outcome_view(outcome)),
    {
        let shared = restate(&outcome);
        self.phase = Phase::Landing;
        self.kept = Some(outcome);
        Action::Land(shared)
    }

    fn finish(&mut self, outcome: Result<Lookup, Error>) -> (r: Action)
        ensures
            (final(self)@, r@) == old(self)@.hands(outcome_view(outcome)),
    {
        self.phase = Phase::Done;
        self.kept = None;
        Action::Return(outcome)
    }

    /// Takes in what happened and says what is needed next.
    pub fn step(&mut self, event: Event) -> (r: Action)
        requires
            old(self)@.expects(event@),
            old(self)@.next(event@).1 is Sleep ==> old(self)@.delay * 2 <= longest(),
        ensures
            (final(self)@, r@) == old(self)@.next(event@),
    {
        match event {
            Event::Read(Some(hit)) => if self.phase == Phase::Checking {
                self.land(Ok(hit))
            } else {
                self.finish(Ok(hit))
            },
            Event::Read(None) => if self.phase == Phase::Checking {
                self.phase = Phase::Asking;
                Action::Send
            } else {
                self.phase = Phase::Boarding;
                Action::Board
            },
            Event::Led => {
                self.phase = Phase::Checking;
                Action::Read
            },
            Event::Joined => {
                self.phase = Phase::Joining;
                Action::Await
            },
            Event::Arrived(Some(outcome)) => self.finish(outcome),
            Event::Arrived(None) => {
                self.phase = Phase::Reading;
                Action::Read
            },
            Event::Answered(Ok(answer)) => {
                let lookup = Lookup::served(answer);
                if self.caching {
                    self.kept = Some(Ok(lookup.clone()));
                    self.phase = Phase::Storing;
                    Action::Store(lookup)
                } else {
                    self.finish(Ok(lookup))
                }
            },
            Event::Answered(Err(failure)) => match self.retry.failed(&failure) {
                Some(wait) => {
                    self.phase = Phase::Waiting;
                    Action::Sleep(wait)
                },
                None => if self.caching {
                    self.land(Err(failure))
                } else {
                    self.finish(Err(failure))
                },
            },
            Event::Slept => {
                self.phase = Phase::Asking;
                Action::Send
            },
            Event::Stored => match self.kept.take() {
                Some(outcome) => self.land(outcome),
                None => vstd::pervasive::unreached(),
            },
            Event::Landed => match self.kept.take() {
                Some(outcome) => self.finish(outcome),
                None => vstd::pervasive::unreached(),
            },
        }
    }
}

impl Client {
    /// A client on the free tier, against production.
    pub fn new() -> (r: Result<Self, Error>)
        ensures
            r matches Ok(client) && client@ == (ClientView {
                base_url: without_end_slashes(DEFAULT_BASE_URL@),
                api_key: None,
                cache: Some((DEFAULT_CACHE_CAPACITY, (DEFAULT_CACHE_TTL_SECS * NANOS_PER_SEC) as nat)),
                concurrency: DEFAULT_CONCURRENCY,
                retries: DEFAULT_RETRIES,
                timeout: (DEFAULT_TIMEOUT_SECS * NANOS_PER_SEC) as nat,
            }),
    {
        ClientBuilder::new().build()
    }

    pub fn builder() -> (r: ClientBuilder)
        ensures
            r.api_key is None,
            r.base_url is None,
            r.cache_capacity is None,
            r.cache_ttl is None,
            !r.cache_off,
            r.concurrency is None,
            r.retries is None,
            r.timeout is None,
    {
        ClientBuilder::new()
    }

    /// Starts a lookup of one address with the client's own retries and timeout.
    pub fn lookup(&self, ip: &str) -> (r: (LookupCall, Action))
        ensures
            (r.0@, r.1@) == lookup_start(ip@, self.cache is Some, self.retries, self.timeout),
            as_written(ip@, bogon_text(ip@)),
    {
        self.lookup_with(ip, LookupOptions::new())
    }

    /// Starts a lookup of one address, and says what it needs done first. A bogon
    /// is answered at once and never reaches the network.
    pub fn lookup_with(&self, ip: &str, opts: LookupOptions) -> (r: (LookupCall, Action))
        ensures
            (r.0@, r.1@) == lookup_start(
                ip@,
                self.cache is Some,
                or_client(opts.retries, self.retries),
                or_client(opts.timeout, self.timeout),
            ),
            as_written(ip@, bogon_text(ip@)),
    {
        let segment = encode_path_segment(ip);
        let mut call = LookupCall {
            path: concat("/", segment.as_str()),
            timeout: given_or(opts.timeout, self.timeout),
            caching: self.cache.is_some(),
            retry: Retry::new(given_or(opts.retries, self.retries)),
            phase: Phase::Asking,
            kept: None,
        };
        if is_bogon(ip) {
            call.phase = Phase::Done;
            return (call, Action::Return(Ok(bogon_lookup(ip))));
        }
        if self.cache.is_some() {
            call.phase = Phase::Reading;
            return (call, Action::Read);
        }
        (call, Action::Send)
    }

    /// Starts a lookup of the address the client is calling from with the
    /// client's own retries and timeout.
    pub fn my_ip(&self) -> (r: (LookupCall, Action))
        ensures
            r.1 is Send,
            r.0@ == own_start(self.retries, self.timeout),
    {
        self.my_ip_with(LookupOptions::new())
    }

    /// Starts a lookup of the address the client is calling from, which is asked
    /// at once and never kept: which address that is is the question.
    pub fn my_ip_with(&self, opts: LookupOptions) -> (r: (LookupCall, Action))
        ensures
            r.1 is Send,
            r.0@ == own_start(
                or_client(opts.retries, self.retries),
                or_client(opts.timeout, self.timeout),
            ),
    {
        let call = LookupCall {
            path: "/myip".to_owned(),
            timeout: given_or(opts.timeout, self.timeout),
            caching: false,
            retry: Retry::new(given_or(opts.retries, self.retries)),
            phase: Phase::Asking,
            kept: None,
        };
        (call, Action::Send)
    }

    /// The request for what the client's key is entitled to, with the client's
    /// own timeout, and the attempts it may take.
    pub fn my_entitlement(&self) -> (r: (Request, Retry))
        ensures
            r.0@ == read_request(
                self@.base_url,
                self@.api_key,
                "/api/v1/entitlement"@,
                Seq::empty(),
                self.timeout,
            ),
            r.1.remaining == self.retries,
            r.1.delay@ == base_delay(),
    {
        self.my_entitlement_with(LookupOptions::new())
    }

    /// The request for what the client's key is entitled to, and the attempts it
    /// may take.
    pub fn my_entitlement_with(&self, opts: LookupOptions) -> (r: (Request, Retry))
        ensures
            r.0@ == read_request(
                self@.base_url,
                self@.api_key,
                "/api/v1/entitlement"@,
                Seq::empty(),
                or_client(opts.timeout, self.timeout),
            ),
            r.1.remaining == or_client(opts.retries, self.retries),
            r.1.delay@ == base_delay(),
    {
        let query: Vec<(String, String)> = Vec::new();
        assert(crate::transport::pair_texts(query@) =~= Seq::empty());
        let timeout = given_or(opts.timeout, self.timeout);
        let request = self.transport.get_json("/api/v1/entitlement", query, timeout);
        (request, Retry::new(given_or(opts.retries, self.retries)))
    }

    /// Whether an address is answered locally rather than served.
    pub fn is_bogon(&self, ip: &str) -> (r: bool)
        ensures
            r == bogon_text(ip@),
            as_written(ip@, r),
    {
        is_bogon(ip)
    }

    /// The licensed dataset downloads.
    pub fn database(&self) -> (r: Database<'_>)
        ensures
            r.client == self,
    {
        Database::new(self)
    }

    /// The authorization server behind the API.
    pub fn oauth(&self) -> (r: OauthApi<'_>)
        ensures
            r.client == self,
    {
        OauthApi::new(self)
    }
}

/// What a lookup needs done, event after event.
pub open spec fn trace(call: CallView, events: Seq<EventView>) -> Seq<ActionView>
    decreases events.len(),
{
    if events.len() == 0 {
        Seq::empty()
    } else {
        seq![call.next(events[0]).1] + trace(call.next(events[0]).0, events.skip(1))
    }
}

/// How many of the actions send a request.
pub open spec fn sends(actions: Seq<ActionView>) -> nat
    decreases actions.len(),
{
    if actions.len() == 0 {
        0
    } else {
        (if actions[0] is Send {
            1nat
        } else {
            0nat
        }) + sends(actions.skip(1))
    }
}

proof fn trace_first(call: CallView, events: Seq<EventView>)
    requires
        events.len() > 0,
    ensures
        trace(call, events)[0] == call.next(events[0]).1,
        trace(call, events).skip(1) == trace(call.next(events[0]).0, events.skip(1)),
        trace(call, events).len() == events.len(),
    decreases events.len(),
{
    if events.len() > 1 {
        trace_first(call.next(events[0]).0, events.skip(1));
    }
    assert(trace(call, events).skip(1) =~= trace(call.next(events[0]).0, events.skip(1)));
}

/// How many requests a lookup can still send.
spec fn budget(call: CallView) -> nat {
    match call.phase {
        Phase::Asking => call.remaining as nat,
        Phase::Storing => 0,
        Phase::Landing => 0,
        Phase::Done => 0,
        _ => call.remaining as nat + 1,
    }
}

proof fn sends_within_budget(call: CallView, events: Seq<EventView>)
    ensures
        sends(trace(call, events)) <= budget(call),
    decreases events.len(),
{
    if events.len() > 0 {
        trace_first(call, events);
        sends_within_budget(call.next(events[0]).0, events.skip(1));
    }
}

/// Whatever happens, a lookup sends at most one request more than its retries.
pub proof fn law_a_lookup_sends_at_most_its_retries_and_one(
    ip: Seq<char>,
    caching: bool,
    retries: u32,
    timeout: Duration,
    events: Seq<EventView>,
)
    ensures
        sends(
            seq![lookup_start(ip, caching, retries, timeout).1] + trace(
                lookup_start(ip, caching, retries, timeout).0,
                events,
            ),
        ) <= retries + 1,
{
    let (call, first) = lookup_start(ip, caching, retries, timeout);
    let all = seq![first] + trace(call, events);
    assert(all.skip(1) =~= trace(call, events));
    sends_within_budget(call, events);
}

proof fn nothing_after_the_end(call: CallView, events: Seq<EventView>)
    requires
        call.phase == Phase::Done,
    ensures
        sends(trace(call, events)) == 0,
        forall|i: int| 0 <= i < events.len() ==> #[trigger] trace(call, events)[i] is Nothing,
    decreases events.len(),
{
    if events.len() > 0 {
        trace_first(call, events);
        nothing_after_the_end(call, events.skip(1));
        assert forall|i: int| 0 <= i < events.len() implies #[trigger] trace(
            call,
            events,
        )[i] is Nothing by {
            if i > 0 {
                assert(trace(call, events)[i] == trace(call, events).skip(1)[i - 1]);
            }
        }
    }
}

/// A bogon never costs a request: it is answered at once, and nothing is needed
/// after that.
pub proof fn law_a_bogon_never_reaches_the_network(
    ip: Seq<char>,
    caching: bool,
    retries: u32,
    timeout: Duration,
    events: Seq<EventView>,
)
    requires
        bogon_text(ip),
    ensures
        lookup_start(ip, caching, retries, timeout).1 == ActionView::Return(Ok(bogon_view(ip))),
        sends(trace(lookup_start(ip, caching, retries, timeout).0, events)) == 0,
{
    nothing_after_the_end(lookup_start(ip, caching, retries, timeout).0, events);
}

/// An address that an answer is kept of is given that answer, and costs no
/// request.
pub proof fn law_a_kept_answer_costs_no_request(
    ip: Seq<char>,
    retries: u32,
    timeout: Duration,
    hit: LookupView,
    events: Seq<EventView>,
)
    requires
        !bogon_text(ip),
    ensures
        lookup_start(ip, true, retries, timeout).1 is Read,
        lookup_start(ip, true, retries, timeout).0.next(EventView::Read(Some(hit))).1
            == ActionView::Return(Ok(hit)),
        sends(
            trace(
                lookup_start(ip, true, retries, timeout).0.next(EventView::Read(Some(hit))).0,
                events,
            ),
        ) == 0,
{
    nothing_after_the_end(
        lookup_start(ip, true, retries, timeout).0.next(EventView::Read(Some(hit))).0,
        events,
    );
}

/// A repeated lookup is free: the answer a lookup hands over is the one it had
/// stored, and a later lookup that reads it back hands over the same.
pub proof fn law_a_repeated_lookup_is_free(
    call: CallView,
    answer: AnswerView,
    ip: Seq<char>,
    retries: u32,
    timeout: Duration,
    events: Seq<EventView>,
)
    requires
        call.caching,
        call.phase == Phase::Asking,
        !bogon_text(ip),
    ensures
        call.next(EventView::Answered(Ok(answer))).1 == ActionView::Store(served(answer)),
        call.next(EventView::Answered(Ok(answer))).0.next(EventView::Stored).0.next(
            EventView::Landed,
        ).1 == ActionView::Return(Ok(served(answer))),
        lookup_start(ip, true, retries, timeout).0.next(EventView::Read(Some(served(answer)))).1
            == ActionView::Return(Ok(served(answer))),
        sends(
            trace(
                lookup_start(ip, true, retries, timeout).0.next(
                    EventView::Read(Some(served(answer))),
                ).0,
                events,
            ),
        ) == 0,
{
    law_a_kept_answer_costs_no_request(ip, retries, timeout, served(answer), events);
}

/// What a lookup that keeps no answers never needs: to read one, to store one, or
/// to share a request.
pub open spec fn of_the_cache(action: ActionView) -> bool {
    action is Read || action is Store || action is Board || action is Await || action is Land
}

/// A lookup that keeps no answers neither reads nor stores any, and shares no
/// request, whatever happens.
pub proof fn law_without_caching_nothing_is_read_or_stored(
    ip: Seq<char>,
    retries: u32,
    timeout: Duration,
    events: Seq<EventView>,
)
    ensures
        !of_the_cache(lookup_start(ip, false, retries, timeout).1),
        forall|i: int|
            0 <= i < events.len() ==> !of_the_cache(
                #[trigger] trace(lookup_start(ip, false, retries, timeout).0, events)[i],
            ),
        forall|i: int|
            0 <= i < events.len() ==> !of_the_cache(
                #[trigger] trace(own_start(retries, timeout), events)[i],
            ),
{
    nothing_of_the_cache(lookup_start(ip, false, retries, timeout).0, events);
    nothing_of_the_cache(own_start(retries, timeout), events);
}

proof fn nothing_of_the_cache(call: CallView, events: Seq<EventView>)
    requires
        !call.caching,
        call.phase == Phase::Asking || call.phase == Phase::Waiting || call.phase == Phase::Done,
    ensures
        forall|i: int|
            0 <= i < events.len() ==> !of_the_cache(#[trigger] trace(call, events)[i]),
    decreases events.len(),
{
    if events.len() > 0 {
        trace_first(call, events);
        nothing_of_the_cache(call.next(events[0]).0, events.skip(1));
        assert forall|i: int| 0 <= i < events.len() implies !of_the_cache(
            #[trigger] trace(call, events)[i],
        ) by {
            if i > 0 {
                assert(trace(call, events)[i] == trace(call, events).skip(1)[i - 1]);
            }
        }
    }
}

/// Only an answer that was served is ever stored.
pub proof fn law_only_served_answers_are_stored(call: CallView, events: Seq<EventView>, i: int)
    requires
        0 <= i < events.len(),
        trace(call, events)[i] is Store,
    ensures
        trace(call, events)[i] matches ActionView::Store(lookup) && !lookup.is_bogon
            && events[i] == EventView::Answered(Ok(lookup.answer)),
    decreases events.len(),
{
    trace_first(call, events);
    if i > 0 {
        assert(trace(call, events)[i] == trace(call, events).skip(1)[i - 1]);
        law_only_served_answers_are_stored(call.next(events[0]).0, events.skip(1), i - 1);
    }
}

/// A caller that misses while a request for its address is in flight joins that
/// flight, sends nothing, and is answered by what the flight lands with.
pub proof fn law_a_miss_in_flight_is_answered_by_the_flight(
    board: FlightsView,
    ip: Seq<char>,
    call: CallView,
    outcome: Result<LookupView, ErrorView>,
    events: Seq<EventView>,
)
    requires
        board.flying.contains_key(ip),
        call.phase == Phase::Boarding,
    ensures
        boarded(board, seq![ip]).led.len() == 0,
        boarded(board, seq![ip]).joined == seq![(ip, board.flying[ip])],
        call.next(EventView::Joined).1 is Await,
        call.next(EventView::Joined).0.next(EventView::Arrived(Some(outcome))).1
            == ActionView::Return(outcome),
        sends(
            trace(
                call.next(EventView::Joined).0.next(EventView::Arrived(Some(outcome))).0,
                events,
            ),
        ) == 0,
{
    assert(seq![ip].drop_last() =~= Seq::empty());
    assert(boarded(board, seq![ip].drop_last()).board == board);
    assert(boarded(board, seq![ip]).joined =~= seq![(ip, board.flying[ip])]);
    nothing_after_the_end(
        call.next(EventView::Joined).0.next(EventView::Arrived(Some(outcome))).0,
        events,
    );
}

/// A caller whose flight was given up tries again, from the cache on.
pub proof fn law_a_given_up_flight_is_tried_again(call: CallView)
    requires
        call.phase == Phase::Joining,
    ensures
        call.next(EventView::Arrived(None)).1 is Read,
        call.next(EventView::Arrived(None)).0 == (CallView { phase: Phase::Reading, ..call }),
{
}

/// A lookup that keeps answers sends only what it leads a flight for, and reads
/// the cache again before it does: an answer may have landed since it missed.
pub proof fn law_a_sender_reads_the_cache_again(call: CallView, event: EventView)
    ensures
        call.next(event).1 is Send ==> (call.phase == Phase::Checking && event == EventView::Read(
            None,
        )) || call.phase == Phase::Waiting,
        call.phase != Phase::Checking && call.next(event).0.phase == Phase::Checking ==> event
            is Led && call.next(event).1 is Read,
        call.phase != Phase::Waiting && call.next(event).0.phase == Phase::Waiting ==> call.phase
            == Phase::Asking,
        call.phase != Phase::Asking && call.next(event).0.phase == Phase::Asking ==> call.next(
            event,
        ).1 is Send,
{
}

/// A served answer is stored before its flight lands, and the flight lands before
/// the caller is answered, so whoever finds no flight finds the answer.
pub proof fn law_an_answer_is_stored_before_it_lands(
    call: CallView,
    answer: AnswerView,
)
    requires
        call.caching,
        call.phase == Phase::Asking,
    ensures
        ({
            let stored = call.next(EventView::Answered(Ok(answer)));
            let landed = stored.0.next(EventView::Stored);
            let handed = landed.0.next(EventView::Landed);
            &&& stored.1 == ActionView::Store(served(answer))
            &&& landed.1 == ActionView::Land(Ok(served(answer)))
            &&& handed.1 == ActionView::Return(Ok(served(answer)))
        }),
{
}

/// A lookup that leads a flight does not end before the flight has landed.
pub proof fn law_what_is_led_lands(call: CallView, event: EventView)
    requires
        call.caching,
        call.next(event).1 is Return,
    ensures
        call.phase == Phase::Reading || call.phase == Phase::Joining || call.phase
            == Phase::Landing,
{
}

/// A client is built exactly when its URL has a host and nothing it was told is
/// nothing. It then is what it was told, and otherwise what the defaults say: ten
/// thousand answers kept for an hour, eight requests in flight, two retries, thirty
/// seconds an attempt, and production.
pub proof fn law_a_client_is_what_it_was_told(
    builder: ClientBuilder,
    shown: Seq<char>,
)
    ensures
        (builder.built(shown, Ok(true)) is Ok) == !(builder.concurrency == Some(0usize)
            || builder.cache_capacity == Some(0u64) || (builder.cache_ttl matches Some(ttl) && ttl@
            == 0) || (builder.timeout matches Some(timeout) && timeout@ == 0)),
        builder.built(shown, Ok(true)) matches Ok(client) ==> {
            &&& builder.base_url matches Some(url) ==> client.base_url == without_end_slashes(url@)
            &&& builder.base_url is None ==> client.base_url == without_end_slashes(
                "https://api.vpndetection.io"@,
            )
            &&& builder.api_key matches Some(key) ==> client.api_key == Some(key@)
            &&& builder.api_key is None ==> client.api_key is None
            &&& builder.cache_off ==> client.cache is None
            &&& !builder.cache_off ==> (client.cache matches Some((capacity, ttl)) && capacity == (
            match builder.cache_capacity {
                Some(n) => n,
                None => 10_000,
            }) && ttl == (match builder.cache_ttl {
                Some(span) => span@,
                None => 3600 * 1_000_000_000,
            }))
            &&& client.concurrency == (match builder.concurrency {
                Some(n) => n,
                None => 8,
            })
            &&& client.retries == (match builder.retries {
                Some(n) => n,
                None => 2,
            })
            &&& client.timeout == (match builder.timeout {
                Some(span) => span@,
                None => 30 * 1_000_000_000,
            })
        },
{
}

/// A client that cannot be built says the first thing that is wrong, which is a
/// misuse and is never worth retrying.
pub proof fn law_a_client_says_what_is_wrong_with_it(
    builder: ClientBuilder,
    shown: Seq<char>,
    why: Seq<char>,
)
    ensures
        builder.built(shown, Err(why)) == Err::<ClientView, ErrorView>(
            ErrorView::Config("base url "@ + shown + ": "@ + why),
        ),
        builder.built(shown, Ok(false)) == Err::<ClientView, ErrorView>(
            ErrorView::Config("base url "@ + shown + " needs a scheme and a host"@),
        ),
        builder.concurrency == Some(0usize) ==> builder.built(shown, Ok(true)) == Err::<
            ClientView,
            ErrorView,
        >(ErrorView::Config("concurrency must be at least 1"@)),
        builder.concurrency != Some(0usize) && builder.cache_capacity == Some(0u64)
            ==> builder.built(shown, Ok(true)) == Err::<ClientView, ErrorView>(
            ErrorView::Config("cache capacity must be at least 1"@),
        ),
        builder.concurrency != Some(0usize) && builder.cache_capacity != Some(0u64) ==> (
        builder.cache_ttl matches Some(ttl) ==> ttl@ == 0 ==> builder.built(shown, Ok(true))
            == Err::<ClientView, ErrorView>(ErrorView::Config("cache ttl must be positive"@))),
        builder.concurrency != Some(0usize) && builder.cache_capacity != Some(0u64) && !(
        builder.cache_ttl matches Some(ttl) && ttl@ == 0) ==> (builder.timeout matches Some(timeout)
            ==> timeout@ == 0 ==> builder.built(shown, Ok(true)) == Err::<ClientView, ErrorView>(
            ErrorView::Config("timeout must be positive"@),
        )),
        builder.base_url is None ==> builder.url() == "https://api.vpndetection.io"@,
        builder.base_url matches Some(url) ==> builder.url() == url@,
{
}

/// A client reads as what it is.
pub proof fn law_a_client_reads_as_it_is(client: Client)
    ensures
        client@.base_url == client.transport.base_url@,
        client.transport.api_key is None ==> client@.api_key is None,
        client.transport.api_key matches Some(key) ==> client@.api_key == Some(key@),
        client.cache is None ==> client@.cache is None,
        client.cache matches Some(size) ==> client@.cache == Some((size.capacity, size.ttl@)),
        client@.concurrency == client.concurrency,
        client@.retries == client.retries,
        client@.timeout == client.timeout@,
{
}

/// What a call says wins over what the client says, and where it says nothing the
/// client's word holds.
pub proof fn law_a_call_overrides_its_client(mine: u32, client: u32, span: Duration, held: Duration)
    ensures
        or_client(Some(mine), client) == mine,
        or_client(None, client) == client,
        or_client(Some(span), held) == span,
        or_client(None, held) == held,
{
}

/// A lookup of an address that is no bogon asks for the percent-encoded address
/// under the root, as long as it was given and with as many retries, and starts by
/// reading the cache where answers are kept and by sending where they are not. A
/// lookup of the calling address asks for its own path and is never kept.
pub proof fn law_a_lookup_starts_as_it_was_told(
    ip: Seq<char>,
    caching: bool,
    retries: u32,
    timeout: Duration,
)
    ensures
        !bogon_text(ip) ==> ({
            let (call, first) = lookup_start(ip, caching, retries, timeout);
            &&& call.path == "/"@ + encoded(vstd::utf8::encode_utf8(ip))
            &&& call.timeout == timeout
            &&& call.caching == caching
            &&& call.remaining == retries
            &&& call.delay == 250_000_000
            &&& call.kept is None
            &&& caching ==> first is Read && call.phase == Phase::Reading
            &&& !caching ==> first is Send && call.phase == Phase::Asking
        }),
        ({
            let own = own_start(retries, timeout);
            &&& own.path == "/myip"@
            &&& own.timeout == timeout
            &&& !own.caching
            &&& own.remaining == retries
            &&& own.delay == 250_000_000
            &&& own.phase == Phase::Asking
        }),
{
}

/// What is served is handed over as it was served, field for field, and marked as
/// served: at once where answers are not kept, and once it is stored and has landed
/// where they are.
pub proof fn law_what_is_served_is_handed_over(call: CallView, answer: AnswerView)
    requires
        call.phase == Phase::Asking,
    ensures
        !call.caching ==> (call.next(EventView::Answered(Ok(answer))).1 matches ActionView::Return(
            Ok(lookup),
        ) && lookup.answer == answer && !lookup.is_bogon),
        call.caching ==> ({
            let stored = call.next(EventView::Answered(Ok(answer)));
            let landed = stored.0.next(EventView::Stored);
            let handed = landed.0.next(EventView::Landed);
            &&& stored.1 matches ActionView::Store(lookup) && lookup.answer == answer
                && !lookup.is_bogon
            &&& landed.1 matches ActionView::Land(Ok(lookup)) && lookup.answer == answer
                && !lookup.is_bogon
            &&& handed.1 matches ActionView::Return(Ok(lookup)) && lookup.answer == answer
                && !lookup.is_bogon
        }),
{
}

/// A failure worth retrying is slept out while attempts are left: for as long as the
/// server asked, however long, or else for as long as the schedule says, which is
/// doubled either way. Any other failure is handed over as it is, after it has landed
/// for those who share it where answers are kept.
pub proof fn law_a_failure_is_waited_out_or_handed_over(
    call: CallView,
    failure: ErrorView,
    wait: Duration,
)
    requires
        call.phase == Phase::Asking,
    ensures
        ({
            let (after, action) = call.next(EventView::Answered(Err(failure)));
            let again = call.remaining > 0 && failure.retryable();
            &&& again && failure.retry_after() == Some(wait) ==> action == ActionView::Sleep(wait@)
            &&& again && failure.retry_after() is None ==> action == ActionView::Sleep(call.delay)
            &&& again ==> after.remaining == call.remaining - 1 && after.delay == 2 * call.delay
                && after.path == call.path && after.timeout == call.timeout && after.next(
                EventView::Slept,
            ).1 is Send
            &&& !again && !call.caching ==> action == ActionView::Return(Err(failure))
            &&& !again && call.caching ==> action == ActionView::Land(Err(failure.restated()))
                && after.next(EventView::Landed).1 == ActionView::Return(Err(failure))
        }),
{
}

/// The failures of a lookup that keeps failing, and the sleeps between them.
pub open spec fn keeps_failing(failure: ErrorView, times: nat) -> Seq<EventView>
    decreases times,
{
    if times == 0 {
        Seq::empty()
    } else {
        seq![EventView::Answered(Err(failure)), EventView::Slept] + keeps_failing(
            failure,
            (times - 1) as nat,
        )
    }
}

/// How often a lookup was told that it failed and slept: twice as many events.
proof fn keeps_failing_is(failure: ErrorView, times: nat)
    ensures
        keeps_failing(failure, times).len() == 2 * times,
    decreases times,
{
    if times > 0 {
        keeps_failing_is(failure, (times - 1) as nat);
    }
}

/// Without a wait that the server asks for, the sleeps of a lookup that keeps failing
/// double one after another, and it hands the failure over once its retries are used
/// up: after so many failures and sleeps it sleeps as long as its first sleep doubled
/// as often, while it has retries left, and sleeps no more when it has none.
pub proof fn law_sleeps_double(call: CallView, failure: ErrorView, times: nat)
    requires
        call.phase == Phase::Asking,
        failure.retryable(),
        failure.retry_after() is None,
        times <= call.remaining,
    ensures
        ({
            let actions = trace(
                call,
                keeps_failing(failure, times) + seq![EventView::Answered(Err(failure))],
            );
            &&& actions.len() == 2 * times + 1
            &&& times < call.remaining ==> actions[2 * times as int] == ActionView::Sleep(
                (call.delay * crate::number::two_to(times)) as nat,
            )
            &&& times == call.remaining ==> !(actions[2 * times as int] is Sleep)
        }),
    decreases times,
{
    let last = seq![EventView::Answered(Err(failure))];
    let events = keeps_failing(failure, times) + last;
    keeps_failing_is(failure, times);
    trace_first(call, events);
    if times == 0 {
        assert(events =~= last);
        assert(crate::number::two_to(0) == 1);
    } else {
        let less = (times - 1) as nat;
        let rest = keeps_failing(failure, less) + last;
        keeps_failing_is(failure, less);
        let waiting = call.next(events[0]).0;
        assert(events[0] == EventView::Answered(Err(failure)));
        assert(events.skip(1)[0] == EventView::Slept);
        trace_first(waiting, events.skip(1));
        let asking = waiting.next(EventView::Slept).0;
        assert(events.skip(1).skip(1) =~= rest);
        law_sleeps_double(asking, failure, less);
        assert(trace(call, events)[2 * times as int] == trace(waiting, events.skip(1))[2 * times
            as int - 1]);
        assert(trace(waiting, events.skip(1))[2 * times as int - 1] == trace(
            asking,
            rest,
        )[2 * less as int]);
        assert(asking.delay == 2 * call.delay);
        assert((2 * call.delay) * crate::number::two_to(less) == call.delay * (2
            * crate::number::two_to(less))) by (nonlinear_arith);
    }
}

/// What happens to a lookup, and what it needs done, reads as it is.
pub proof fn law_a_lookup_reads_as_it_is(call: LookupCall, lookup: Lookup, failure: Error)
    ensures
        call@.path == call.path@,
        call@.timeout == call.timeout,
        call@.caching == call.caching,
        call@.remaining == call.retry.remaining,
        call@.delay == call.retry.delay@,
        call@.phase == call.phase,
        Event::Read(Some(lookup))@ == EventView::Read(Some(lookup@)),
        Event::Read(None)@ == EventView::Read(None),
        Event::Answered(Err(failure))@ == EventView::Answered(Err(failure@)),
        Event::Answered(Ok(lookup.answer))@ == EventView::Answered(Ok(lookup.answer@)),
        Event::Arrived(Some(Ok(lookup)))@ == EventView::Arrived(Some(Ok(lookup@))),
        Event::Arrived(Some(Err(failure)))@ == EventView::Arrived(Some(Err(failure@))),
        Event::Arrived(None)@ == EventView::Arrived(None),
        Action::Return(Ok(lookup))@ == ActionView::Return(Ok(lookup@)),
        Action::Return(Err(failure))@ == ActionView::Return(Err(failure@)),
        Action::Land(Ok(lookup))@ == ActionView::Land(Ok(lookup@)),
        Action::Land(Err(failure))@ == ActionView::Land(Err(failure@)),
        Action::Store(lookup)@ == ActionView::Store(lookup@),
        forall|wait: Duration| #[trigger] Action::Sleep(wait)@ == ActionView::Sleep(wait@),
        Action::Send@ == ActionView::Send,
        Action::Read@ == ActionView::Read,
        Action::Board@ == ActionView::Board,
        Action::Await@ == ActionView::Await,
{
}

/// A lookup goes on from what it was waiting for and from nothing else, and an
/// answer that was kept or that landed is handed over as it is.
pub proof fn law_a_lookup_goes_on_from_what_it_waits_for(
    call: CallView,
    hit: LookupView,
    outcome: Result<LookupView, ErrorView>,
)
    ensures
        call.phase == Phase::Reading ==> {
            &&& call.next(EventView::Read(Some(hit))).1 == ActionView::Return(Ok(hit))
            &&& call.next(EventView::Read(Some(hit))).0.phase == Phase::Done
            &&& call.next(EventView::Read(None)).1 is Board
            &&& call.next(EventView::Read(None)).0.phase == Phase::Boarding
        },
        call.phase == Phase::Boarding ==> {
            &&& call.next(EventView::Led).1 is Read && call.next(EventView::Led).0.phase
                == Phase::Checking
            &&& call.next(EventView::Joined).1 is Await && call.next(EventView::Joined).0.phase
                == Phase::Joining
        },
        call.phase == Phase::Checking ==> {
            &&& call.next(EventView::Read(None)).1 is Send
            &&& call.next(EventView::Read(None)).0.phase == Phase::Asking
            &&& call.next(EventView::Read(Some(hit))).1 == ActionView::Land(Ok(hit))
            &&& call.next(EventView::Read(Some(hit))).0.next(EventView::Landed).1
                == ActionView::Return(Ok(hit))
        },
        call.phase == Phase::Joining ==> call.next(EventView::Arrived(Some(outcome))).1
            == ActionView::Return(outcome),
        call.phase == Phase::Done ==> forall|event: EventView| #[trigger]
            call.next(event) == (call, ActionView::Nothing),
        call.phase == Phase::Asking ==> forall|event: EventView|
            !(event is Answered) ==> #[trigger] call.next(event) == (call, ActionView::Nothing),
        call.phase == Phase::Waiting ==> forall|event: EventView|
            !(event is Slept) ==> #[trigger] call.next(event) == (call, ActionView::Nothing),
{
}

/// What a lookup waits for where it is. Anything else that happens leaves it as it was and
/// needs nothing done, and nothing that happens changes what it asks for, for how long, or
/// whether its answer is kept.
pub proof fn law_what_a_lookup_waits_for(call: CallView, event: EventView)
    ensures
        call.expects(event) == (match call.phase {
            Phase::Reading => event is Read,
            Phase::Boarding => event is Led || event is Joined,
            Phase::Joining => event is Arrived,
            Phase::Checking => event is Read,
            Phase::Asking => event is Answered,
            Phase::Waiting => event is Slept,
            Phase::Storing => event is Stored && call.kept is Some,
            Phase::Landing => event is Landed && call.kept is Some,
            Phase::Done => false,
        }),
        !call.expects(event) ==> call.next(event) == (call, ActionView::Nothing),
        call.next(event).0.path == call.path,
        call.next(event).0.timeout == call.timeout,
        call.next(event).0.caching == call.caching,
        !(event is Answered) ==> call.next(event).0.remaining == call.remaining && call.next(
            event,
        ).0.delay == call.delay,
{
}

}
