//! Signing a person in on their own machine with the OAuth device flow, so a
//! program can be handed one of their API keys instead of asking them to paste
//! it.

use vstd::prelude::*;

use crate::client::{given_or, or_client, Client};
use crate::error::{envelope_text, kind_for_status, refused_response, status_kind};
use crate::error::{Envelope, Error, ErrorKind, ErrorView};
use crate::retry::{base_delay, wait_after, Retry};
use crate::text::{concat, decimal, decimal_text, maybe_text, same};
use crate::time::{longest, Duration, NANOS_PER_SEC};
use crate::transport::{form_request, keyless_request, pair_texts, succeeded, undecodable};
use crate::transport::{Request, Sent};

verus! {

pub const METADATA_PATH: &'static str = "/.well-known/oauth-authorization-server";

pub const DEVICE_AUTHORIZATION_PATH: &'static str = "/oauth/device_authorization";

pub const TOKEN_PATH: &'static str = "/oauth/token";

pub const REVOKE_PATH: &'static str = "/oauth/revoke";

pub const DEVICE_CODE_GRANT: &'static str = "urn:ietf:params:oauth:grant-type:device_code";

/// The wait between polls of a device authorization whose interval is below one,
/// in seconds.
pub const DEFAULT_POLL_INTERVAL: i64 = 5;

/// How much longer the wait between polls gets when the server says so, in
/// seconds.
pub const SLOW_DOWN_STEP: i64 = 5;

/// One call's overrides.
#[derive(Clone, Copy, Debug)]
pub struct OauthOptions {
    pub timeout: Option<Duration>,
}

impl OauthOptions {
    pub fn new() -> (r: Self)
        ensures
            r == (OauthOptions { timeout: None }),
    {
        OauthOptions { timeout: None }
    }

    /// Overrides the client's timeout for this call, still per attempt. For a
    /// poll it bounds each request, never the poll as a whole.
    pub fn timeout(self, timeout: Duration) -> (r: Self)
        ensures
            r == (OauthOptions { timeout: Some(timeout) }),
    {
        OauthOptions { timeout: Some(timeout) }
    }
}

impl Default for OauthOptions {
    fn default() -> (r: Self)
        ensures
            r == (OauthOptions { timeout: None }),
    {
        OauthOptions::new()
    }
}

/// What a device authorization asks for. A value left unset, or set empty, is
/// left out of the request rather than sent empty.
#[derive(Debug)]
pub struct DeviceAuthorizationOptions {
    pub scope: Option<String>,
    pub resource: Option<String>,
    pub timeout: Option<Duration>,
}

impl DeviceAuthorizationOptions {
    pub fn new() -> (r: Self)
        ensures
            r == (DeviceAuthorizationOptions { scope: None, resource: None, timeout: None }),
    {
        DeviceAuthorizationOptions { scope: None, resource: None, timeout: None }
    }

    /// The scopes to ask for, space-delimited and sent verbatim.
    pub fn scope(self, scope: String) -> (r: Self)
        ensures
            r == (DeviceAuthorizationOptions { scope: Some(scope), ..self }),
    {
        DeviceAuthorizationOptions { scope: Some(scope), ..self }
    }

    /// The API the tokens are for.
    pub fn resource(self, resource: String) -> (r: Self)
        ensures
            r == (DeviceAuthorizationOptions { resource: Some(resource), ..self }),
    {
        DeviceAuthorizationOptions { resource: Some(resource), ..self }
    }

    /// Overrides the client's timeout for this call, still per attempt.
    pub fn timeout(self, timeout: Duration) -> (r: Self)
        ensures
            r == (DeviceAuthorizationOptions { timeout: Some(timeout), ..self }),
    {
        DeviceAuthorizationOptions { timeout: Some(timeout), ..self }
    }
}

impl Default for DeviceAuthorizationOptions {
    fn default() -> (r: Self)
        ensures
            r == (DeviceAuthorizationOptions { scope: None, resource: None, timeout: None }),
    {
        DeviceAuthorizationOptions::new()
    }
}

/// The authorization server's discovery document.
#[derive(Clone, Debug, PartialEq, Eq)]
pub struct OauthMetadata {
    pub issuer: String,
    pub authorization_endpoint: String,
    pub token_endpoint: String,
    pub device_authorization_endpoint: Option<String>,
    pub revocation_endpoint: Option<String>,
    pub scopes_supported: Option<Vec<String>>,
    pub response_types_supported: Option<Vec<String>>,
    pub grant_types_supported: Option<Vec<String>>,
    pub code_challenge_methods_supported: Option<Vec<String>>,
    pub token_endpoint_auth_methods_supported: Option<Vec<String>>,
    pub authorization_response_iss_parameter_supported: Option<bool>,
    pub service_documentation: Option<String>,
}

/// A device sign-in that has started and is waiting for the person.
#[derive(Clone, Debug, PartialEq, Eq)]
pub struct DeviceAuthorization {
    /// What is exchanged for tokens. Never show it.
    pub device_code: String,
    /// What the person types.
    pub user_code: String,
    pub verification_uri: String,
    /// The same page with the code already filled in.
    pub verification_uri_complete: Option<String>,
    /// Seconds until both codes expire.
    pub expires_in: i64,
    /// Seconds to wait between polls.
    pub interval: i64,
}

/// What a successful token exchange hands over.
#[derive(Clone, Debug, PartialEq, Eq)]
pub struct TokenResponse {
    pub access_token: String,
    pub token_type: String,
    /// Seconds until the access token expires.
    pub expires_in: i64,
    /// A refresh consumes the token it presents, so keep the one that comes back.
    pub refresh_token: Option<String>,
    /// What was actually granted.
    pub scope: Option<String>,
    /// The ID of the API key the person picked.
    pub apikey_id: Option<String>,
    /// The API key itself, from the device code grant only.
    pub apikey: Option<String>,
}

/// What the authorization server said when it refused.
#[derive(Clone, Debug, PartialEq, Eq)]
pub struct OauthErrorResponse {
    pub error_code: String,
    pub error_description: Option<String>,
    /// The HTTP status, or `None` for the expiry a poll decides locally.
    pub status: Option<u16>,
}

pub struct RefusalView {
    pub error_code: Seq<char>,
    pub error_description: Option<Seq<char>>,
    pub status: Option<u16>,
}

impl View for OauthErrorResponse {
    type V = RefusalView;

    open spec fn view(&self) -> RefusalView {
        RefusalView {
            error_code: self.error_code@,
            error_description: maybe_text(self.error_description),
            status: self.status,
        }
    }
}

/// What every call of the authorization server fails with. An ordinary failure
/// is the one any other call would give. A refusal is never worth retrying.
#[derive(Debug)]
pub enum OauthError {
    /// The person refused the sign-in.
    AccessDenied(OauthErrorResponse),
    /// The device code expired, or was already exchanged or refused.
    ExpiredToken(OauthErrorResponse),
    /// Any other refusal.
    Rejected(OauthErrorResponse),
    /// Anything that is not a refusal.
    Client(Error),
}

pub enum OauthErrorView {
    AccessDenied(RefusalView),
    ExpiredToken(RefusalView),
    Rejected(RefusalView),
    Client(ErrorView),
}

impl View for OauthError {
    type V = OauthErrorView;

    open spec fn view(&self) -> OauthErrorView {
        match self {
            OauthError::AccessDenied(r) => OauthErrorView::AccessDenied(r@),
            OauthError::ExpiredToken(r) => OauthErrorView::ExpiredToken(r@),
            OauthError::Rejected(r) => OauthErrorView::Rejected(r@),
            OauthError::Client(e) => OauthErrorView::Client(e@),
        }
    }
}

impl RefusalView {
    /// The code, and the description when there is one.
    pub open spec fn message(self) -> Seq<char> {
        match self.error_description {
            Some(description) => self.error_code + ": "@ + description,
            None => self.error_code,
        }
    }
}

impl OauthErrorView {
    /// What the server said, when it refused.
    pub open spec fn refusal(self) -> Option<RefusalView> {
        match self {
            OauthErrorView::AccessDenied(r) => Some(r),
            OauthErrorView::ExpiredToken(r) => Some(r),
            OauthErrorView::Rejected(r) => Some(r),
            OauthErrorView::Client(_) => None,
        }
    }

    /// A refusal is what its status says, and the expiry a poll decides locally
    /// is a bad request.
    pub open spec fn kind(self) -> ErrorKind {
        match self {
            OauthErrorView::Client(e) => e.kind(),
            _ => status_kind(or_client((self.refusal()->0).status, 400), false),
        }
    }

    pub open spec fn retryable(self) -> bool {
        self matches OauthErrorView::Client(e) && e.retryable()
    }

    pub open spec fn status(self) -> Option<u16> {
        match self {
            OauthErrorView::Client(e) => e.status(),
            _ => (self.refusal()->0).status,
        }
    }

    pub open spec fn message(self) -> Seq<char> {
        match self {
            OauthErrorView::Client(e) => e.message(),
            _ => (self.refusal()->0).message(),
        }
    }

    pub open spec fn retry_after(self) -> Option<Duration> {
        match self {
            OauthErrorView::Client(e) => e.retry_after(),
            _ => None,
        }
    }

    /// The failure as one line of text.
    pub open spec fn line(self) -> Seq<char> {
        match self {
            OauthErrorView::Client(e) => e.line(),
            _ => match self.status() {
                Some(status) => "vpndetection: oauth (HTTP "@ + decimal_text(status as nat) + "): "@
                    + self.message(),
                None => "vpndetection: oauth: "@ + self.message(),
            },
        }
    }
}

impl OauthErrorResponse {
    fn message(&self) -> (r: String)
        ensures
            r@ == self@.message(),
    {
        match &self.error_description {
            Some(description) => {
                let mut text = concat(self.error_code.as_str(), ": ");
                text.append(description.as_str());
                text
            },
            None => self.error_code.clone(),
        }
    }
}

impl OauthError {
    fn response(&self) -> (r: Option<&OauthErrorResponse>)
        ensures
            match r {
                Some(response) => self@.refusal() == Some(response@),
                None => self@.refusal() is None,
            },
    {
        match self {
            OauthError::AccessDenied(r) => Some(r),
            OauthError::ExpiredToken(r) => Some(r),
            OauthError::Rejected(r) => Some(r),
            OauthError::Client(_) => None,
        }
    }

    pub fn kind(&self) -> (r: ErrorKind)
        ensures
            r == self@.kind(),
    {
        match self {
            OauthError::Client(e) => e.kind(),
            OauthError::AccessDenied(r) => kind_for_status(given_or(r.status, 400), None),
            OauthError::ExpiredToken(r) => kind_for_status(given_or(r.status, 400), None),
            OauthError::Rejected(r) => kind_for_status(given_or(r.status, 400), None),
        }
    }

    pub fn retryable(&self) -> (r: bool)
        ensures
            r == self@.retryable(),
    {
        match self {
            OauthError::Client(e) => e.retryable(),
            _ => false,
        }
    }

    pub fn status(&self) -> (r: Option<u16>)
        ensures
            r == self@.status(),
    {
        match self {
            OauthError::Client(e) => e.status(),
            OauthError::AccessDenied(r) => r.status,
            OauthError::ExpiredToken(r) => r.status,
            OauthError::Rejected(r) => r.status,
        }
    }

    /// The `error` of a refusal, or `None` for an ordinary failure.
    pub fn error_code(&self) -> (r: Option<&str>)
        ensures
            match r {
                Some(code) => self@.refusal() matches Some(refusal) && code@ == refusal.error_code,
                None => self@.refusal() is None,
            },
    {
        match self.response() {
            Some(response) => Some(response.error_code.as_str()),
            None => None,
        }
    }

    /// The `error_description` of a refusal that has one.
    pub fn error_description(&self) -> (r: Option<&str>)
        ensures
            match r {
                Some(description) => self@.refusal() matches Some(refusal)
                    && refusal.error_description == Some(description@),
                None => self@.refusal() matches Some(refusal)
                    ==> refusal.error_description is None,
            },
    {
        match self.response() {
            Some(response) => match &response.error_description {
                Some(description) => Some(description.as_str()),
                None => None,
            },
            None => None,
        }
    }

    /// The code of a refusal and its description when it has one, and the
    /// ordinary message otherwise.
    pub fn message(&self) -> (r: String)
        ensures
            r@ == self@.message(),
    {
        match self {
            OauthError::Client(e) => e.message(),
            OauthError::AccessDenied(r) => r.message(),
            OauthError::ExpiredToken(r) => r.message(),
            OauthError::Rejected(r) => r.message(),
        }
    }

    pub fn retry_after(&self) -> (r: Option<Duration>)
        ensures
            r == self@.retry_after(),
    {
        match self {
            OauthError::Client(e) => e.retry_after(),
            _ => None,
        }
    }

    /// The failure as one line of text.
    pub fn to_text(&self) -> (r: String)
        ensures
            r@ == self@.line(),
    {
        match self {
            OauthError::Client(e) => e.to_text(),
            _ => match self.status() {
                Some(status) => {
                    let mut text = "vpndetection: oauth (HTTP ".to_owned();
                    text.append(decimal(status as u64).as_str());
                    text.append("): ");
                    text.append(self.message().as_str());
                    text
                },
                None => concat("vpndetection: oauth: ", self.message().as_str()),
            },
        }
    }

    /// How long to wait after this failure before another attempt, or that there
    /// is none. A refusal gets none.
    pub fn retry(&self, retry: &mut Retry) -> (r: Option<Duration>)
        requires
            self@ matches OauthErrorView::Client(e) && wait_after(
                old(retry).remaining,
                old(retry).delay,
                e,
            ) is Some ==> old(retry).delay@ * 2 <= longest(),
        ensures
            r == (match self@ {
                OauthErrorView::Client(e) => wait_after(
                    old(retry).remaining,
                    old(retry).delay,
                    e,
                ),
                _ => None,
            }),
            r is None ==> *final(retry) == *old(retry),
            r is Some ==> final(retry).remaining == old(retry).remaining - 1 && final(retry).delay@
                == old(retry).delay@ * 2,
    {
        match self {
            OauthError::Client(e) => retry.failed(e),
            _ => None,
        }
    }
}

impl From<Error> for OauthError {
    fn from(err: Error) -> (r: Self) {
        OauthError::Client(err)
    }
}

impl vstd::std_specs::convert::FromSpecImpl<Error> for OauthError {
    open spec fn obeys_from_spec() -> bool {
        true
    }

    open spec fn from_spec(err: Error) -> Self {
        OauthError::Client(err)
    }
}

/// The refusals are never worth retrying, whatever their status.
pub proof fn law_a_refusal_is_not_retryable(e: OauthErrorView)
    requires
        e.refusal() is Some,
    ensures
        !e.retryable(),
        e.retry_after() is None,
{
}

/// The authorization server behind the API: the device flow, token refresh and
/// revocation. None of its requests carries the client's API key.
#[derive(Clone, Copy, Debug)]
pub struct OauthApi<'a> {
    pub client: &'a Client,
}

/// A call with a timeout of nothing is refused.
pub open spec fn no_time() -> OauthErrorView {
    OauthErrorView::Client(ErrorView::Config("timeout must be positive"@))
}

/// The fields of a device authorization.
pub open spec fn device_form(
    client_id: Seq<char>,
    scope: Option<Seq<char>>,
    resource: Option<Seq<char>>,
) -> Seq<(Seq<char>, Seq<char>)> {
    seq![("client_id"@, client_id)] + optional_field("scope"@, scope) + optional_field(
        "resource"@,
        resource,
    )
}

/// A field that is left out when it is unset or empty.
pub open spec fn optional_field(name: Seq<char>, value: Option<Seq<char>>) -> Seq<
    (Seq<char>, Seq<char>),
> {
    match value {
        Some(text) => if text.len() > 0 {
            seq![(name, text)]
        } else {
            Seq::empty()
        },
        None => Seq::empty(),
    }
}

pub open spec fn device_code_form(client_id: Seq<char>, device_code: Seq<char>) -> Seq<
    (Seq<char>, Seq<char>),
> {
    seq![
        ("grant_type"@, DEVICE_CODE_GRANT@),
        ("device_code"@, device_code),
        ("client_id"@, client_id),
    ]
}

pub open spec fn refresh_form(client_id: Seq<char>, refresh_token: Seq<char>) -> Seq<
    (Seq<char>, Seq<char>),
> {
    seq![
        ("grant_type"@, "refresh_token"@),
        ("refresh_token"@, refresh_token),
        ("client_id"@, client_id),
    ]
}

pub open spec fn revoke_form(client_id: Seq<char>, token: Seq<char>) -> Seq<
    (Seq<char>, Seq<char>),
> {
    seq![("token"@, token), ("client_id"@, client_id)]
}

fn push_field(form: &mut Vec<(String, String)>, name: &str, value: &str)
    ensures
        pair_texts(final(form)@) == pair_texts(old(form)@).push((name@, value@)),
{
    form.push((name.to_owned(), value.to_owned()));
    assert(pair_texts(form@) =~= pair_texts(old(form)@).push((name@, value@)));
}

fn device_code_fields(client_id: &str, device_code: &str) -> (r: Vec<(String, String)>)
    ensures
        pair_texts(r@) == device_code_form(client_id@, device_code@),
{
    let mut form: Vec<(String, String)> = Vec::new();
    push_field(&mut form, "grant_type", DEVICE_CODE_GRANT);
    push_field(&mut form, "device_code", device_code);
    push_field(&mut form, "client_id", client_id);
    assert(pair_texts(form@) =~= device_code_form(client_id@, device_code@));
    form
}

fn push_optional(form: &mut Vec<(String, String)>, name: &str, value: &Option<String>)
    ensures
        pair_texts(final(form)@) == pair_texts(old(form)@) + optional_field(
            name@,
            maybe_text(*value),
        ),
{
    match value {
        Some(text) => {
            if !text.as_str().is_empty() {
                push_field(form, name, text.as_str());
            }
        },
        None => {},
    }
    assert(pair_texts(form@) =~= pair_texts(old(form)@) + optional_field(
        name@,
        maybe_text(*value),
    ));
}

/// A request and the attempts it may take, or the refusal of a call that has no
/// time.
pub open spec fn prepared(
    r: Result<(Request, Retry), OauthError>,
    timeout: Duration,
    sent: Sent,
    retries: u32,
) -> bool {
    match r {
        Ok((request, retry)) => timeout@ > 0 && request@ == sent && retry.remaining == retries
            && retry.delay@ == base_delay(),
        Err(e) => timeout@ == 0 && e@ == no_time(),
    }
}

impl<'a> OauthApi<'a> {
    pub fn new(client: &'a Client) -> (r: Self)
        ensures
            r.client == client,
    {
        OauthApi { client }
    }

    fn refused() -> (r: OauthError)
        ensures
            r@ == no_time(),
    {
        OauthError::Client(Error::Config("timeout must be positive".to_owned()))
    }

    fn form(
        &self,
        path: &str,
        form: Vec<(String, String)>,
        timeout: Duration,
        retries: u32,
    ) -> (r: Result<(Request, Retry), OauthError>)
        ensures
            prepared(
                r,
                timeout,
                form_request(self.client@.base_url, path@, pair_texts(form@), timeout),
                retries,
            ),
    {
        if timeout.is_zero() {
            return Err(OauthApi::refused());
        }
        Ok((self.client.transport.post_form(path, form, timeout), Retry::new(retries)))
    }

    /// Asks for the discovery document with the client's own timeout.
    pub fn metadata(&self) -> (r: Result<(Request, Retry), OauthError>)
        ensures
            prepared(
                r,
                self.client.timeout,
                keyless_request(self.client@.base_url, METADATA_PATH@, self.client.timeout),
                self.client.retries,
            ),
    {
        self.metadata_with(OauthOptions::new())
    }

    /// Asks for the discovery document. It consumes nothing, so it is retried.
    pub fn metadata_with(&self, opts: OauthOptions) -> (r: Result<(Request, Retry), OauthError>)
        ensures
            prepared(
                r,
                or_client(opts.timeout, self.client.timeout),
                keyless_request(
                    self.client@.base_url,
                    METADATA_PATH@,
                    or_client(opts.timeout, self.client.timeout),
                ),
                self.client.retries,
            ),
    {
        let timeout = given_or(opts.timeout, self.client.timeout);
        if timeout.is_zero() {
            return Err(OauthApi::refused());
        }
        let request = self.client.transport.get_keyless(METADATA_PATH, timeout);
        Ok((request, Retry::new(self.client.retries)))
    }

    /// Starts a device sign-in that asks for no scope and no resource, with the
    /// client's own timeout.
    pub fn device_authorization(&self, client_id: &str) -> (r: Result<
        (Request, Retry),
        OauthError,
    >)
        ensures
            prepared(
                r,
                self.client.timeout,
                form_request(
                    self.client@.base_url,
                    DEVICE_AUTHORIZATION_PATH@,
                    device_form(client_id@, None, None),
                    self.client.timeout,
                ),
                self.client.retries,
            ),
    {
        self.device_authorization_with(client_id, &DeviceAuthorizationOptions::new())
    }

    /// Starts a device sign-in. It consumes nothing, so it is retried.
    pub fn device_authorization_with(
        &self,
        client_id: &str,
        opts: &DeviceAuthorizationOptions,
    ) -> (r: Result<(Request, Retry), OauthError>)
        ensures
            prepared(
                r,
                or_client(opts.timeout, self.client.timeout),
                form_request(
                    self.client@.base_url,
                    DEVICE_AUTHORIZATION_PATH@,
                    device_form(client_id@, maybe_text(opts.scope), maybe_text(opts.resource)),
                    or_client(opts.timeout, self.client.timeout),
                ),
                self.client.retries,
            ),
    {
        let mut form: Vec<(String, String)> = Vec::new();
        assert(pair_texts(form@) =~= Seq::empty());
        push_field(&mut form, "client_id", client_id);
        assert(pair_texts(form@) =~= seq![("client_id"@, client_id@)]);
        push_optional(&mut form, "scope", &opts.scope);
        push_optional(&mut form, "resource", &opts.resource);
        let timeout = given_or(opts.timeout, self.client.timeout);
        self.form(DEVICE_AUTHORIZATION_PATH, form, timeout, self.client.retries)
    }

    /// Exchanges an approved device code for tokens, once, with the client's own
    /// timeout.
    pub fn exchange_device_code(&self, client_id: &str, device_code: &str) -> (r: Result<
        (Request, Retry),
        OauthError,
    >)
        ensures
            prepared(
                r,
                self.client.timeout,
                form_request(
                    self.client@.base_url,
                    TOKEN_PATH@,
                    device_code_form(client_id@, device_code@),
                    self.client.timeout,
                ),
                0,
            ),
    {
        self.exchange_device_code_with(client_id, device_code, OauthOptions::new())
    }

    /// Exchanges an approved device code for tokens, once: the server consumes
    /// the code on approval, so a retry after a lost answer loses the tokens.
    pub fn exchange_device_code_with(
        &self,
        client_id: &str,
        device_code: &str,
        opts: OauthOptions,
    ) -> (r: Result<(Request, Retry), OauthError>)
        ensures
            prepared(
                r,
                or_client(opts.timeout, self.client.timeout),
                form_request(
                    self.client@.base_url,
                    TOKEN_PATH@,
                    device_code_form(client_id@, device_code@),
                    or_client(opts.timeout, self.client.timeout),
                ),
                0,
            ),
    {
        let form = device_code_fields(client_id, device_code);
        self.form(TOKEN_PATH, form, given_or(opts.timeout, self.client.timeout), 0)
    }

    /// Exchanges a refresh token for a new pair, once, with the client's own
    /// timeout.
    pub fn exchange_refresh_token(&self, client_id: &str, refresh_token: &str) -> (r: Result<
        (Request, Retry),
        OauthError,
    >)
        ensures
            prepared(
                r,
                self.client.timeout,
                form_request(
                    self.client@.base_url,
                    TOKEN_PATH@,
                    refresh_form(client_id@, refresh_token@),
                    self.client.timeout,
                ),
                0,
            ),
    {
        self.exchange_refresh_token_with(client_id, refresh_token, OauthOptions::new())
    }

    /// Exchanges a refresh token for a new pair, once: the server consumes the
    /// refresh token before it mints the new one.
    pub fn exchange_refresh_token_with(
        &self,
        client_id: &str,
        refresh_token: &str,
        opts: OauthOptions,
    ) -> (r: Result<(Request, Retry), OauthError>)
        ensures
            prepared(
                r,
                or_client(opts.timeout, self.client.timeout),
                form_request(
                    self.client@.base_url,
                    TOKEN_PATH@,
                    refresh_form(client_id@, refresh_token@),
                    or_client(opts.timeout, self.client.timeout),
                ),
                0,
            ),
    {
        let mut form: Vec<(String, String)> = Vec::new();
        push_field(&mut form, "grant_type", "refresh_token");
        push_field(&mut form, "refresh_token", refresh_token);
        push_field(&mut form, "client_id", client_id);
        assert(pair_texts(form@) =~= refresh_form(client_id@, refresh_token@));
        self.form(TOKEN_PATH, form, given_or(opts.timeout, self.client.timeout), 0)
    }

    /// Revokes a token with the client's own timeout.
    pub fn revoke(&self, client_id: &str, token: &str) -> (r: Result<(Request, Retry), OauthError>)
        ensures
            prepared(
                r,
                self.client.timeout,
                form_request(
                    self.client@.base_url,
                    REVOKE_PATH@,
                    revoke_form(client_id@, token@),
                    self.client.timeout,
                ),
                self.client.retries,
            ),
    {
        self.revoke_with(client_id, token, OauthOptions::new())
    }

    /// Revokes a token. Revoking twice is revoking once, so it is retried.
    pub fn revoke_with(
        &self,
        client_id: &str,
        token: &str,
        opts: OauthOptions,
    ) -> (r: Result<(Request, Retry), OauthError>)
        ensures
            prepared(
                r,
                or_client(opts.timeout, self.client.timeout),
                form_request(
                    self.client@.base_url,
                    REVOKE_PATH@,
                    revoke_form(client_id@, token@),
                    or_client(opts.timeout, self.client.timeout),
                ),
                self.client.retries,
            ),
    {
        let mut form: Vec<(String, String)> = Vec::new();
        push_field(&mut form, "token", token);
        push_field(&mut form, "client_id", client_id);
        assert(pair_texts(form@) =~= revoke_form(client_id@, token@));
        let timeout = given_or(opts.timeout, self.client.timeout);
        self.form(REVOKE_PATH, form, timeout, self.client.retries)
    }

    /// Starts waiting for the person to approve a device sign-in, with the
    /// client's own timeout for each request.
    pub fn poll_device_token(
        &self,
        client_id: &str,
        device: &DeviceAuthorization,
        now: Duration,
    ) -> (r: Result<(Poll, PollAction), OauthError>)
        requires
            now@ + seconds_of(device.expires_in) <= longest(),
        ensures
            match r {
                Ok((poll, action)) => {
                    &&& self.client.timeout@ > 0
                    &&& poll@ == PollView::start(client_id@, *device, self.client.timeout, now@)
                    &&& action matches PollAction::Sleep(wait) && wait@ == poll@.wait(now@)
                },
                Err(e) => self.client.timeout@ == 0 && e@ == no_time(),
            },
    {
        self.poll_device_token_with(client_id, device, OauthOptions::new(), now)
    }

    /// Starts waiting for the person to approve a device sign-in: a poll, and how
    /// long to sleep before its first request. A call that has no time for its
    /// requests is refused before it waits.
    pub fn poll_device_token_with(
        &self,
        client_id: &str,
        device: &DeviceAuthorization,
        opts: OauthOptions,
        now: Duration,
    ) -> (r: Result<(Poll, PollAction), OauthError>)
        requires
            now@ + seconds_of(device.expires_in) <= longest(),
        ensures
            match r {
                Ok((poll, action)) => {
                    let timeout = or_client(opts.timeout, self.client.timeout);
                    &&& timeout@ > 0
                    &&& poll@ == PollView::start(client_id@, *device, timeout, now@)
                    &&& action matches PollAction::Sleep(wait) && wait@ == poll@.wait(now@)
                },
                Err(e) => or_client(opts.timeout, self.client.timeout)@ == 0 && e@ == no_time(),
            },
    {
        let timeout = given_or(opts.timeout, self.client.timeout);
        if timeout.is_zero() {
            return Err(OauthApi::refused());
        }
        let interval: i64 = if device.interval >= 1 {
            device.interval
        } else {
            DEFAULT_POLL_INTERVAL
        };
        let poll = Poll {
            client_id: client_id.to_owned(),
            device_code: device.device_code.as_str().to_owned(),
            timeout,
            interval,
            deadline: now.plus(&seconds(device.expires_in)),
            phase: PollPhase::Sleeping,
        };
        let action = poll.sleep(now);
        Ok((poll, action))
    }
}

/// How long so many seconds are, in nanoseconds. Less than none is none.
pub open spec fn seconds_of(n: i64) -> nat {
    if n > 0 {
        (n * NANOS_PER_SEC) as nat
    } else {
        0
    }
}

/// So many seconds. Less than none is none.
pub fn seconds(n: i64) -> (r: Duration)
    ensures
        r@ == seconds_of(n),
{
    if n > 0 {
        Duration::from_secs(n as u64)
    } else {
        Duration::from_secs(0)
    }
}

#[derive(Clone, Copy, Debug, PartialEq, Eq, Structural)]
pub enum PollPhase {
    /// Waiting for the next request.
    Sleeping,
    /// The request is in flight.
    Asking,
    Done,
}

/// A wait for the person to approve a device sign-in.
#[derive(Debug)]
pub struct Poll {
    pub client_id: String,
    pub device_code: String,
    /// How long each request may take.
    pub timeout: Duration,
    pub interval: i64,
    pub deadline: Duration,
    pub phase: PollPhase,
}

pub struct PollView {
    pub client_id: Seq<char>,
    pub device_code: Seq<char>,
    pub timeout: Duration,
    pub interval: i64,
    pub deadline: nat,
    pub phase: PollPhase,
}

/// What a poll needs done next.
#[derive(Debug)]
pub enum PollAction {
    Sleep(Duration),
    /// Exchange the device code.
    Send,
    /// Hand this to the caller.
    Return(Result<TokenResponse, OauthError>),
}

impl View for Poll {
    type V = PollView;

    open spec fn view(&self) -> PollView {
        PollView {
            client_id: self.client_id@,
            device_code: self.device_code@,
            timeout: self.timeout,
            interval: self.interval,
            deadline: self.deadline@,
            phase: self.phase,
        }
    }
}

/// The expiry a poll decides locally.
pub open spec fn expired() -> OauthErrorView {
    OauthErrorView::ExpiredToken(
        RefusalView { error_code: "expired_token"@, error_description: None, status: None },
    )
}

/// Whether the server wants the poll to go on, and slower.
pub open spec fn slowed_down(outcome: Result<TokenResponse, OauthError>) -> bool {
    outcome matches Err(e) && e@ matches OauthErrorView::Rejected(r) && r.error_code
        == "slow_down"@
}

/// Whether the person has not decided yet.
pub open spec fn still_pending(outcome: Result<TokenResponse, OauthError>) -> bool {
    outcome matches Err(e) && e@ matches OauthErrorView::Rejected(r) && r.error_code
        == "authorization_pending"@
}

impl PollView {
    /// A poll that starts now.
    pub open spec fn start(
        client_id: Seq<char>,
        device: DeviceAuthorization,
        timeout: Duration,
        now: nat,
    ) -> PollView {
        PollView {
            client_id,
            device_code: device.device_code@,
            timeout,
            interval: if device.interval >= 1 {
                device.interval
            } else {
                DEFAULT_POLL_INTERVAL
            },
            deadline: now + seconds_of(device.expires_in),
            phase: PollPhase::Sleeping,
        }
    }

    /// A poll that was told to slow down.
    pub open spec fn slower(self) -> PollView {
        PollView { interval: (self.interval + SLOW_DOWN_STEP) as i64, ..self }
    }

    /// A poll that was told to slow down so many times.
    pub open spec fn slower_by(self, times: nat) -> PollView
        decreases times,
    {
        if times == 0 {
            self
        } else {
            self.slower_by((times - 1) as nat).slower()
        }
    }

    /// How long to sleep: the interval, or what is left before the deadline when
    /// that is less.
    pub open spec fn wait(self, now: nat) -> nat {
        let left = if self.deadline >= now {
            (self.deadline - now) as nat
        } else {
            0
        };
        if left < seconds_of(self.interval) {
            left
        } else {
            seconds_of(self.interval)
        }
    }
}

impl Poll {
    fn sleep(&self, now: Duration) -> (r: PollAction)
        ensures
            r matches PollAction::Sleep(wait) && wait@ == self@.wait(now@),
    {
        let left = self.deadline.minus(&now);
        let interval = seconds(self.interval);
        if left.at_least(&interval) {
            PollAction::Sleep(interval)
        } else {
            PollAction::Sleep(left)
        }
    }

    /// The exchange a poll asks with.
    pub fn request(&self, client: &Client) -> (r: Request)
        ensures
            r@ == form_request(
                client@.base_url,
                TOKEN_PATH@,
                device_code_form(self@.client_id, self@.device_code),
                self@.timeout,
            ),
    {
        let form = device_code_fields(self.client_id.as_str(), self.device_code.as_str());
        client.transport.post_form(TOKEN_PATH, form, self.timeout)
    }

    /// The poll has slept. It asks, unless the code has expired.
    pub fn woke(&mut self, now: Duration) -> (r: PollAction)
        requires
            old(self).phase == PollPhase::Sleeping,
        ensures
            if now@ >= old(self)@.deadline {
                &&& r matches PollAction::Return(Err(e)) && e@ == expired()
                &&& final(self)@ == (PollView { phase: PollPhase::Done, ..old(self)@ })
            } else {
                &&& r is Send
                &&& final(self)@ == (PollView { phase: PollPhase::Asking, ..old(self)@ })
            },
    {
        if now.at_least(&self.deadline) {
            self.phase = PollPhase::Done;
            return PollAction::Return(
                Err(
                    OauthError::ExpiredToken(
                        OauthErrorResponse {
                            error_code: "expired_token".to_owned(),
                            error_description: None,
                            status: None,
                        },
                    ),
                ),
            );
        }
        self.phase = PollPhase::Asking;
        PollAction::Send
    }

    /// The exchange was answered. The poll goes on while the person has not
    /// decided, five seconds slower each time the server says so, and ends with
    /// any other outcome.
    pub fn answered(&mut self, outcome: Result<TokenResponse, OauthError>, now: Duration) -> (r:
        PollAction)
        requires
            old(self).phase == PollPhase::Asking,
            slowed_down(outcome) ==> old(self).interval <= i64::MAX - SLOW_DOWN_STEP,
        ensures
            if slowed_down(outcome) {
                &&& final(self)@ == (PollView {
                    phase: PollPhase::Sleeping,
                    ..old(self)@.slower()
                })
                &&& r matches PollAction::Sleep(wait) && wait@ == final(self)@.wait(now@)
            } else if still_pending(outcome) {
                &&& final(self)@ == (PollView { phase: PollPhase::Sleeping, ..old(self)@ })
                &&& r matches PollAction::Sleep(wait) && wait@ == final(self)@.wait(now@)
            } else {
                &&& final(self)@ == (PollView { phase: PollPhase::Done, ..old(self)@ })
                &&& r == PollAction::Return(outcome)
            },
    {
        let (slow, pending) = match &outcome {
            Err(OauthError::Rejected(refused)) => (
                same(refused.error_code.as_str(), "slow_down"),
                same(refused.error_code.as_str(), "authorization_pending"),
            ),
            _ => (false, false),
        };
        if slow {
            self.interval = self.interval + SLOW_DOWN_STEP;
            self.phase = PollPhase::Sleeping;
            return self.sleep(now);
        }
        if pending {
            self.phase = PollPhase::Sleeping;
            return self.sleep(now);
        }
        self.phase = PollPhase::Done;
        PollAction::Return(outcome)
    }
}

/// A poll that asks does so before its deadline, and never sooner than a full
/// interval after it went to sleep.
pub proof fn law_a_poll_asks_only_after_its_interval(poll: PollView, slept_at: nat, woke_at: nat)
    requires
        slept_at <= poll.deadline,
        woke_at >= slept_at + poll.wait(slept_at),
        woke_at < poll.deadline,
    ensures
        woke_at >= slept_at + seconds_of(poll.interval),
{
}

/// A poll never sleeps past its deadline.
pub proof fn law_a_poll_wakes_by_its_deadline(poll: PollView, slept_at: nat)
    requires
        slept_at <= poll.deadline,
    ensures
        slept_at + poll.wait(slept_at) <= poll.deadline,
{
}

/// Each time the server says so, a poll waits five seconds more for the rest of
/// the call, and nothing else about it changes.
pub proof fn law_each_slow_down_adds_five_seconds(poll: PollView, times: nat)
    requires
        poll.interval + 5 * times <= i64::MAX,
    ensures
        poll.slower_by(times) == (PollView { interval: (poll.interval + 5 * times) as i64, ..poll }),
    decreases times,
{
    if times > 0 {
        law_each_slow_down_adds_five_seconds(poll, (times - 1) as nat);
    }
}

/// No request to the authorization server carries the API key: it has no
/// credential of its own, and no query to put one in.
pub proof fn law_an_oauth_request_carries_no_key(
    base_url: Seq<char>,
    path: Seq<char>,
    form: Seq<(Seq<char>, Seq<char>)>,
    timeout: Duration,
)
    ensures
        keyless_request(base_url, path, timeout).authorization is None,
        keyless_request(base_url, path, timeout).query.len() == 0,
        form_request(base_url, path, form, timeout).authorization is None,
        form_request(base_url, path, form, timeout).query.len() == 0,
{
}

/// A call that has no further attempts, as the exchange of a code or of a refresh
/// token has none, is never sent again, whatever came of it.
pub proof fn law_an_exchange_is_sent_once(delay: Duration, failure: ErrorView)
    ensures
        wait_after(0, delay, failure) is None,
{
}

/// The text a member of a JSON object has, when the body is one and the member
/// is a text.
pub uninterp spec fn json_text_member(body: Seq<char>, name: Seq<char>) -> Option<Seq<char>>;

/// `serde_json::from_str` into a `Value`, and `get` and `as_str` on what it
/// reads. Which texts are JSON, and what they have under a name, is not stated.
#[verifier::external_body]
fn read_text_member(body: &str, name: &str) -> (r: Option<String>)
    ensures
        maybe_text(r) == json_text_member(body@, name@),
{
    let value: serde_json::Value = serde_json::from_str(body).ok()?;
    value.get(name)?.as_str().map(|text| text.to_owned())
}

/// What a server said, by the members of its answer: there is a refusal only
/// where there is an `error`.
pub open spec fn said(
    status: u16,
    error: Option<Seq<char>>,
    description: Option<Seq<char>>,
) -> Option<RefusalView> {
    match error {
        Some(error_code) => Some(
            RefusalView { error_code, error_description: description, status: Some(status) },
        ),
        None => None,
    }
}

pub open spec fn response_view(response: Option<OauthErrorResponse>) -> Option<RefusalView> {
    match response {
        Some(response) => Some(response@),
        None => None,
    }
}

/// Puts together what a server said from the members of its answer.
pub fn error_response(
    status: u16,
    error: Option<String>,
    description: Option<String>,
) -> (r: Option<OauthErrorResponse>)
    ensures
        response_view(r) == said(status, maybe_text(error), maybe_text(description)),
{
    match error {
        Some(error_code) => Some(
            OauthErrorResponse {
                error_code,
                error_description: description,
                status: Some(status),
            },
        ),
        None => None,
    }
}

/// Reads what a server said out of its answer.
pub fn oauth_error_response(status: u16, body: &str) -> (r: Option<OauthErrorResponse>)
    ensures
        response_view(r) == said(
            status,
            json_text_member(body@, "error"@),
            json_text_member(body@, "error_description"@),
        ),
{
    let error = read_text_member(body, "error");
    let description = read_text_member(body, "error_description");
    error_response(status, error, description)
}

/// What an answer that did not succeed means: a refusal only for a client error
/// that says so, and an ordinary failure otherwise, whatever its body says.
pub open spec fn refusal_of(
    status: u16,
    retry_after: Option<Duration>,
    response: Option<RefusalView>,
    explained: Option<Seq<char>>,
) -> OauthErrorView {
    match response {
        Some(refused) => if 400 <= status < 500 {
            if refused.error_code == "access_denied"@ {
                OauthErrorView::AccessDenied(refused)
            } else if refused.error_code == "expired_token"@ {
                OauthErrorView::ExpiredToken(refused)
            } else {
                OauthErrorView::Rejected(refused)
            }
        } else {
            OauthErrorView::Client(refused_response(status, retry_after, explained))
        },
        None => OauthErrorView::Client(refused_response(status, retry_after, explained)),
    }
}

/// Says what an answer that did not succeed means.
pub fn refusal(
    status: u16,
    retry_after: Option<Duration>,
    response: Option<OauthErrorResponse>,
    envelope: Option<Envelope>,
) -> (r: OauthError)
    ensures
        r@ == refusal_of(status, retry_after, response_view(response), envelope_text(envelope)),
{
    if 400 <= status && status < 500 {
        match response {
            Some(refused) => {
                if same(refused.error_code.as_str(), "access_denied") {
                    return OauthError::AccessDenied(refused);
                }
                if same(refused.error_code.as_str(), "expired_token") {
                    return OauthError::ExpiredToken(refused);
                }
                return OauthError::Rejected(refused);
            },
            None => {},
        }
    }
    OauthError::Client(Error::from_response(status, retry_after, envelope))
}

/// What an answer gives: its decoded body when it succeeded, or what its refusal
/// means. A body that does not decode is an ordinary failure of the server.
pub fn decode<T>(
    status: u16,
    retry_after: Option<Duration>,
    body: &str,
    envelope: Option<Envelope>,
    parsed: Result<T, String>,
) -> (r: Result<T, OauthError>)
    ensures
        match r {
            Ok(value) => succeeded(status) && parsed == Ok::<T, String>(value),
            Err(e) => if succeeded(status) {
                parsed matches Err(why) && e@ == OauthErrorView::Client(undecodable(status, why@))
            } else {
                e@ == refusal_of(
                    status,
                    retry_after,
                    said(
                        status,
                        json_text_member(body@, "error"@),
                        json_text_member(body@, "error_description"@),
                    ),
                    envelope_text(envelope),
                )
            },
        },
{
    if status < 200 || status >= 300 {
        let response = oauth_error_response(status, body);
        return Err(refusal(status, retry_after, response, envelope));
    }
    match parsed {
        Ok(value) => Ok(value),
        Err(why) => Err(
            OauthError::Client(
                Error::Api {
                    kind: ErrorKind::ServerError,
                    message: concat("could not decode the response: ", why.as_str()),
                    status,
                    retry_after: None,
                },
            ),
        ),
    }
}

/// A failure of the server is never a refusal, whatever its body says.
pub proof fn law_a_server_failure_is_no_refusal(
    status: u16,
    retry_after: Option<Duration>,
    response: Option<RefusalView>,
    explained: Option<Seq<char>>,
)
    requires
        !(400 <= status < 500),
    ensures
        refusal_of(status, retry_after, response, explained).refusal() is None,
{
}

/// A poll lasts as long as the device code does, to the nanosecond: its deadline is
/// as many seconds after it started as the code is good for, and a code that is good
/// for less than a second is past at once. It waits as many seconds between requests
/// as the device says, or five where that is less than one, and exchanges the code it
/// was given for the client it was given.
pub proof fn law_a_poll_lasts_as_long_as_the_code(
    client_id: Seq<char>,
    device: DeviceAuthorization,
    timeout: Duration,
    now: nat,
)
    ensures
        ({
            let poll = PollView::start(client_id, device, timeout, now);
            &&& device.expires_in >= 0 ==> poll.deadline == now + device.expires_in * 1_000_000_000
            &&& device.expires_in < 0 ==> poll.deadline == now
            &&& device.interval >= 1 ==> poll.interval == device.interval
            &&& device.interval < 1 ==> poll.interval == 5
            &&& poll.client_id == client_id
            &&& poll.device_code == device.device_code@
            &&& poll.timeout == timeout
            &&& poll.phase == PollPhase::Sleeping
        }),
{
}

/// A poll sleeps its whole interval while that much is left before its deadline, and
/// what is left when less is, whenever it goes to sleep.
pub proof fn law_a_poll_sleeps_its_interval(poll: PollView, now: nat)
    requires
        poll.interval >= 0,
    ensures
        now + poll.interval * 1_000_000_000 <= poll.deadline ==> poll.wait(now) == poll.interval
            * 1_000_000_000,
        now <= poll.deadline < now + poll.interval * 1_000_000_000 ==> now + poll.wait(now)
            == poll.deadline,
        now > poll.deadline ==> poll.wait(now) == 0,
{
}

/// So many seconds are a thousand million nanoseconds each, and less than none is
/// none.
pub proof fn law_seconds_in_nanoseconds(n: i64)
    ensures
        n >= 0 ==> seconds_of(n) == n * 1_000_000_000,
        n < 0 ==> seconds_of(n) == 0,
{
}

/// A poll goes on, and slower by five seconds, exactly when it is rejected with
/// `slow_down`, goes on as it was exactly when it is rejected with
/// `authorization_pending`, and ends with anything else: with tokens, with a refusal,
/// and with an ordinary failure.
pub proof fn law_a_poll_goes_on_only_when_told_to(
    refused: OauthErrorResponse,
    tokens: TokenResponse,
    failure: Error,
    poll: PollView,
)
    ensures
        slowed_down(Err(OauthError::Rejected(refused))) == (refused.error_code@ == "slow_down"@),
        still_pending(Err(OauthError::Rejected(refused))) == (refused.error_code@
            == "authorization_pending"@),
        !slowed_down(Ok(tokens)) && !still_pending(Ok(tokens)),
        !slowed_down(Err(OauthError::AccessDenied(refused))) && !still_pending(
            Err(OauthError::AccessDenied(refused)),
        ),
        !slowed_down(Err(OauthError::ExpiredToken(refused))) && !still_pending(
            Err(OauthError::ExpiredToken(refused)),
        ),
        !slowed_down(Err(OauthError::Client(failure))) && !still_pending(
            Err(OauthError::Client(failure)),
        ),
        poll.interval <= i64::MAX - 5 ==> poll.slower() == (PollView {
            interval: (poll.interval + 5) as i64,
            ..poll
        }),
{
}

/// The expiry a poll decides itself is that of the code, without a status or a
/// description, and is a misuse that no retry mends.
pub proof fn law_an_expiry_decided_locally_has_no_status()
    ensures
        expired() matches OauthErrorView::ExpiredToken(refused) && refused.error_code
            == "expired_token"@ && refused.error_description is None && refused.status is None,
        expired().kind() == ErrorKind::BadRequest,
        expired().status() is None,
        !expired().retryable(),
        expired().message() == "expired_token"@,
{
}

/// What a poll is reads as it is.
pub proof fn law_a_poll_reads_as_it_is(poll: Poll)
    ensures
        poll@.client_id == poll.client_id@,
        poll@.device_code == poll.device_code@,
        poll@.timeout == poll.timeout,
        poll@.interval == poll.interval,
        poll@.deadline == poll.deadline@,
        poll@.phase == poll.phase,
{
}

/// An exchange names its grant, what it presents and the client that presents it, each
/// in a field of its own: a device code, a refresh token, or a token to revoke.
pub proof fn law_an_exchange_presents_what_it_was_given(client_id: Seq<char>, secret: Seq<char>)
    ensures
        device_code_form(client_id, secret) == seq![
            ("grant_type"@, "urn:ietf:params:oauth:grant-type:device_code"@),
            ("device_code"@, secret),
            ("client_id"@, client_id),
        ],
        refresh_form(client_id, secret) == seq![
            ("grant_type"@, "refresh_token"@),
            ("refresh_token"@, secret),
            ("client_id"@, client_id),
        ],
        revoke_form(client_id, secret) == seq![("token"@, secret), ("client_id"@, client_id)],
{
}

/// A device sign-in names its client, and the scope and the resource it asks for
/// exactly when they are set and not empty.
pub proof fn law_a_sign_in_asks_for_what_is_set(
    client_id: Seq<char>,
    scope: Option<Seq<char>>,
    resource: Option<Seq<char>>,
    wanted: Seq<char>,
    api: Seq<char>,
)
    requires
        wanted.len() > 0,
        api.len() > 0,
        scope == None::<Seq<char>> || scope == Some(Seq::<char>::empty()),
        resource == None::<Seq<char>> || resource == Some(Seq::<char>::empty()),
    ensures
        device_form(client_id, scope, resource) == seq![("client_id"@, client_id)],
        device_form(client_id, Some(wanted), resource) == seq![
            ("client_id"@, client_id),
            ("scope"@, wanted),
        ],
        device_form(client_id, scope, Some(api)) == seq![
            ("client_id"@, client_id),
            ("resource"@, api),
        ],
        device_form(client_id, Some(wanted), Some(api)) == seq![
            ("client_id"@, client_id),
            ("scope"@, wanted),
            ("resource"@, api),
        ],
{
    assert(device_form(client_id, scope, resource) =~= seq![("client_id"@, client_id)]);
    assert(device_form(client_id, Some(wanted), resource) =~= seq![
        ("client_id"@, client_id),
        ("scope"@, wanted),
    ]);
    assert(device_form(client_id, scope, Some(api)) =~= seq![
        ("client_id"@, client_id),
        ("resource"@, api),
    ]);
    assert(device_form(client_id, Some(wanted), Some(api)) =~= seq![
        ("client_id"@, client_id),
        ("scope"@, wanted),
        ("resource"@, api),
    ]);
}

/// Where the calls of the authorization server go.
pub proof fn law_where_oauth_calls_go()
    ensures
        METADATA_PATH@ == "/.well-known/oauth-authorization-server"@,
        DEVICE_AUTHORIZATION_PATH@ == "/oauth/device_authorization"@,
        TOKEN_PATH@ == "/oauth/token"@,
        REVOKE_PATH@ == "/oauth/revoke"@,
{
}

/// A call is made exactly when it has time, with the request that it is and as many
/// further attempts as it may take, the first after a quarter of a second. One that
/// has no time is refused as a misuse.
pub proof fn law_a_call_is_made_when_it_has_time(
    r: Result<(Request, Retry), OauthError>,
    timeout: Duration,
    sent: Sent,
    retries: u32,
)
    requires
        prepared(r, timeout, sent, retries),
    ensures
        (r is Ok) == (timeout@ > 0),
        r matches Ok((request, retry)) ==> request@ == sent && retry.remaining == retries
            && retry.delay@ == 250_000_000,
        r matches Err(e) ==> e@.kind() == ErrorKind::BadRequest && !e@.retryable() && e@.message()
            == "timeout must be positive"@,
{
}

/// A refusal is a client error whose answer has an `error`, and is the person's own,
/// that of a code that is over, or any other, as the `error` says. It keeps the code,
/// the description and the status it came with. Any other answer fails as it would
/// anywhere.
pub proof fn law_a_refusal_is_what_the_server_said(
    status: u16,
    retry_after: Option<Duration>,
    code: Seq<char>,
    description: Option<Seq<char>>,
    explained: Option<Seq<char>>,
)
    ensures
        said(status, None, description) is None,
        said(status, Some(code), description) == Some(
            RefusalView { error_code: code, error_description: description, status: Some(status) },
        ),
        400 <= status < 500 ==> ({
            let refused = refusal_of(
                status,
                retry_after,
                said(status, Some(code), description),
                explained,
            );
            &&& refused.refusal() matches Some(r) && r.error_code == code && r.error_description
                == description && r.status == Some(status)
            &&& (refused is AccessDenied) == (code == "access_denied"@)
            &&& (refused is ExpiredToken) == (code == "expired_token"@)
            &&& (refused is Rejected) == (code != "access_denied"@ && code != "expired_token"@)
            &&& refused.status() == Some(status)
            &&& !refused.retryable()
            &&& refused.retry_after() is None
            &&& refused.kind() == refused_response(status, None, explained).kind()
            &&& description is None ==> refused.message() == code
            &&& description matches Some(text) ==> refused.message() == code + ": "@ + text
        }),
        !(400 <= status < 500) ==> refusal_of(
            status,
            retry_after,
            said(status, Some(code), description),
            explained,
        ) == OauthErrorView::Client(refused_response(status, retry_after, explained)),
        refusal_of(status, retry_after, None, explained) == OauthErrorView::Client(
            refused_response(status, retry_after, explained),
        ),
{
    reveal_strlit("access_denied");
    reveal_strlit("expired_token");
    assert("access_denied"@[0] != "expired_token"@[0]);
}

/// A failure that is no refusal says what the failure of any other call would.
pub proof fn law_an_ordinary_failure_is_the_one_any_call_would_give(e: ErrorView)
    ensures
        OauthErrorView::Client(e).kind() == e.kind(),
        OauthErrorView::Client(e).retryable() == e.retryable(),
        OauthErrorView::Client(e).status() == e.status(),
        OauthErrorView::Client(e).message() == e.message(),
        OauthErrorView::Client(e).retry_after() == e.retry_after(),
        OauthErrorView::Client(e).line() == e.line(),
        OauthErrorView::Client(e).refusal() is None,
{
}

/// The line of a refusal says its status where it has one, and what the server said.
pub proof fn law_a_refusal_in_one_line(
    code: Seq<char>,
    description: Option<Seq<char>>,
    status: u16,
)
    ensures
        ({
            let said = if description is Some {
                code + ": "@ + description->0
            } else {
                code
            };
            let with = RefusalView {
                error_code: code,
                error_description: description,
                status: Some(status),
            };
            let without = RefusalView {
                error_code: code,
                error_description: description,
                status: None,
            };
            let line = "vpndetection: oauth (HTTP "@ + decimal_text(status as nat) + "): "@ + said;
            &&& OauthErrorView::Rejected(with).line() == line
            &&& OauthErrorView::AccessDenied(with).line() == line
            &&& OauthErrorView::ExpiredToken(with).line() == line
            &&& OauthErrorView::ExpiredToken(without).line() == "vpndetection: oauth: "@ + said
            &&& OauthErrorView::ExpiredToken(without).kind() == ErrorKind::BadRequest
        }),
{
}

/// A failure of the authorization server reads as it is.
pub proof fn law_an_oauth_failure_reads_as_it_is(refused: OauthErrorResponse, failure: Error)
    ensures
        refused@.error_code == refused.error_code@,
        refused.error_description is None ==> refused@.error_description is None,
        refused.error_description matches Some(text) ==> refused@.error_description == Some(text@),
        refused@.status == refused.status,
        OauthError::AccessDenied(refused)@ == OauthErrorView::AccessDenied(refused@),
        OauthError::ExpiredToken(refused)@ == OauthErrorView::ExpiredToken(refused@),
        OauthError::Rejected(refused)@ == OauthErrorView::Rejected(refused@),
        OauthError::Client(failure)@ == OauthErrorView::Client(failure@),
{
}

}
