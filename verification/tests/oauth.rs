//! What leaves the client on a sign-in, how failures classify, which calls
//! retry, and how the poll keeps time.

use vpndetection::error::{Envelope, NetworkFailure};
use vpndetection::oauth::{
    decode, error_response, oauth_error_response, refusal, seconds, Poll, PollAction,
};
use vpndetection::retry::Retry;
use vpndetection::transport::{Body, Method, Request};
use vpndetection::{
    Client, DeviceAuthorization, DeviceAuthorizationOptions, Duration, Error, ErrorKind, OauthApi,
    OauthError, OauthOptions, TokenResponse,
};

const BASE: &str = "https://api.example.test";
const CLIENT_ID: &str = "vpndetection-cli";

fn client() -> Client {
    Client::builder()
        .base_url(BASE.to_owned())
        .api_key("secret-key".to_owned())
        .build()
        .expect("build")
}

fn device(expires_in: i64, interval: i64) -> DeviceAuthorization {
    DeviceAuthorization {
        device_code: "mo_dc_x".to_owned(),
        user_code: "BCDF-GHJK".to_owned(),
        verification_uri: "https://app.example.test/device".to_owned(),
        verification_uri_complete: None,
        expires_in,
        interval,
    }
}

fn token() -> TokenResponse {
    TokenResponse {
        access_token: "mo_at_x".to_owned(),
        token_type: "Bearer".to_owned(),
        expires_in: 900,
        refresh_token: None,
        scope: None,
        apikey_id: None,
        apikey: None,
    }
}

fn form(request: &Request) -> Vec<(&str, &str)> {
    match &request.body {
        Body::Form(fields) => fields.iter().map(|(k, v)| (k.as_str(), v.as_str())).collect(),
        other => panic!("not a form: {other:?}"),
    }
}

fn envelope(error: &str) -> Option<Envelope> {
    Some(Envelope { error: Some(error.to_owned()), rc: None })
}

/// What the token endpoint refuses with.
fn refused(code: &str) -> OauthError {
    let body = format!("{{\"error\":\"{code}\"}}");
    let parsed: Result<TokenResponse, String> = Err("missing field".to_owned());
    decode(400, None, &body, envelope(code), parsed).expect_err("a 400 is refused")
}

fn every_call(oauth: &OauthApi) -> Vec<(Request, Retry)> {
    let scope = DeviceAuthorizationOptions::new()
        .scope("account.read".to_owned())
        .resource("https://x.test/".to_owned());
    vec![
        oauth.metadata().expect("metadata"),
        oauth.device_authorization(CLIENT_ID).expect("device authorization"),
        oauth.device_authorization_with(CLIENT_ID, &scope).expect("device authorization"),
        oauth.exchange_device_code(CLIENT_ID, "mo_dc_x").expect("exchange device code"),
        oauth.exchange_refresh_token(CLIENT_ID, "mo_rt_x").expect("exchange refresh token"),
        oauth.revoke(CLIENT_ID, "mo_rt_x").expect("revoke"),
    ]
}

#[test]
fn no_oauth_request_carries_the_api_key() {
    let client = client();
    for (request, _) in every_call(&client.oauth()) {
        assert_eq!(request.authorization, None, "{}", request.url);
        assert!(request.query.is_empty(), "{}", request.url);
        assert!(!request.url.contains("secret-key"), "{}", request.url);
        assert!(!format!("{:?}", request.body).contains("secret-key"), "{}", request.url);
    }
}

#[test]
fn each_form_goes_to_its_endpoint_with_exactly_its_fields() {
    let client = client();
    let calls = every_call(&client.oauth());

    let (metadata, _) = &calls[0];
    assert_eq!(metadata.method, Method::Get);
    assert_eq!(metadata.url, format!("{BASE}/.well-known/oauth-authorization-server"));
    assert!(matches!(metadata.body, Body::Empty));

    for (request, path, fields) in [
        (&calls[1].0, "/oauth/device_authorization", vec![("client_id", CLIENT_ID)]),
        (
            &calls[2].0,
            "/oauth/device_authorization",
            vec![
                ("client_id", CLIENT_ID),
                ("scope", "account.read"),
                ("resource", "https://x.test/"),
            ],
        ),
        (
            &calls[3].0,
            "/oauth/token",
            vec![
                ("grant_type", "urn:ietf:params:oauth:grant-type:device_code"),
                ("device_code", "mo_dc_x"),
                ("client_id", CLIENT_ID),
            ],
        ),
        (
            &calls[4].0,
            "/oauth/token",
            vec![
                ("grant_type", "refresh_token"),
                ("refresh_token", "mo_rt_x"),
                ("client_id", CLIENT_ID),
            ],
        ),
        (&calls[5].0, "/oauth/revoke", vec![("token", "mo_rt_x"), ("client_id", CLIENT_ID)]),
    ] {
        assert_eq!(request.method, Method::Post);
        assert_eq!(request.url, format!("{BASE}{path}"));
        assert_eq!(form(request), fields);
    }
}

#[test]
fn an_empty_scope_is_left_out_rather_than_sent_empty() {
    let client = client();
    let empty =
        DeviceAuthorizationOptions::new().scope(String::new()).resource(String::new());
    let (request, _) =
        client.oauth().device_authorization_with(CLIENT_ID, &empty).expect("a request");
    assert_eq!(form(&request), [("client_id", CLIENT_ID)]);
}

#[test]
fn only_the_calls_that_consume_nothing_are_retried() {
    let client = client();
    let failure = OauthError::from(Error::from_response(503, None, None));
    for (place, (request, mut retry)) in every_call(&client.oauth()).into_iter().enumerate() {
        let consumes = place == 3 || place == 4;
        assert_eq!(failure.retry(&mut retry).is_none(), consumes, "{}", request.url);
    }
    let mut retry = Retry::new(2);
    assert_eq!(refused("slow_down").retry(&mut retry), None, "a refusal is final");
}

#[test]
fn failures_are_classified_by_their_code() {
    assert!(matches!(refused("access_denied"), OauthError::AccessDenied(_)));
    assert!(matches!(refused("expired_token"), OauthError::ExpiredToken(_)));
    for code in ["authorization_pending", "slow_down", "invalid_grant", "never_seen"] {
        let err = refused(code);
        assert!(matches!(err, OauthError::Rejected(_)), "{code}");
        assert_eq!(err.error_code(), Some(code));
        assert_eq!(err.status(), Some(400));
        assert_eq!(err.kind(), ErrorKind::BadRequest);
        assert!(!err.retryable());
        assert_eq!(err.retry_after(), None);
        assert_eq!(err.message(), code);
        assert_eq!(err.to_text(), format!("vpndetection: oauth (HTTP 400): {code}"));
    }
}

#[test]
fn a_refusal_carries_its_description_when_that_is_a_text() {
    let body = r#"{"error":"invalid_client","error_description":"no such client"}"#;
    let response = oauth_error_response(401, body);
    let err = refusal(401, None, response, envelope("invalid_client"));
    assert_eq!(err.kind(), ErrorKind::Unauthorized);
    assert_eq!(err.error_description(), Some("no such client"));
    assert_eq!(err.message(), "invalid_client: no such client");

    let odd = oauth_error_response(400, r#"{"error":"x","error_description":7}"#);
    assert_eq!(odd.expect("a refusal").error_description, None);
}

#[test]
fn a_body_without_a_textual_error_is_no_refusal() {
    for body in ["", "<html>", "[]", "7", r#"{"error":7}"#, r#"{"rc":"NO"}"#] {
        assert_eq!(oauth_error_response(400, body), None, "{body}");
        let err = refusal(404, None, oauth_error_response(404, body), None);
        assert!(matches!(err, OauthError::Client(_)), "{body}");
        assert_eq!(err.message(), "request failed with status 404");
        assert_eq!(err.error_code(), None);
    }
    assert_eq!(error_response(400, None, Some("why".to_owned())), None);
}

#[test]
fn a_server_failure_is_no_refusal_whatever_its_body_says() {
    let parsed: Result<TokenResponse, String> = Err("missing field".to_owned());
    let body = r#"{"error":"access_denied"}"#;
    let err = decode(500, None, body, envelope("access_denied"), parsed).expect_err("a 500");
    assert!(matches!(err, OauthError::Client(_)));
    assert_eq!(err.kind(), ErrorKind::ServerError);
    assert!(err.retryable());
}

#[test]
fn a_2xx_without_a_required_member_is_an_ordinary_error() {
    let parsed: Result<TokenResponse, String> = Err("missing field `access_token`".to_owned());
    let err = decode(200, None, "{}", None, parsed).expect_err("undecodable");
    assert!(matches!(err, OauthError::Client(_)));
    assert_eq!(err.kind(), ErrorKind::ServerError);
    assert_eq!(err.status(), Some(200));
    assert_eq!(err.error_code(), None);
    assert_eq!(
        err.message(),
        "could not decode the response: missing field `access_token`"
    );

    assert_eq!(decode(200, None, "{}", None, Ok(token())).expect("decoded"), token());
}

#[test]
fn an_ordinary_failure_prints_as_any_other() {
    let failure = Error::Network(NetworkFailure { text: "sending".to_owned(), timed_out: true });
    let err = OauthError::from(failure);
    assert_eq!(err.to_text(), "vpndetection: network: timed out: sending");
    assert_eq!(err.kind(), ErrorKind::Network);
    assert!(err.retryable());
    assert_eq!(err.status(), None);
}

#[test]
fn every_oauth_call_takes_a_per_call_timeout() {
    let client = client();
    let oauth = client.oauth();
    let brief = Duration::from_millis(150);
    let opts = OauthOptions::new().timeout(brief);
    let device_opts = DeviceAuthorizationOptions::new().timeout(brief);
    for (request, _) in [
        oauth.metadata_with(opts).expect("metadata"),
        oauth.device_authorization_with(CLIENT_ID, &device_opts).expect("device authorization"),
        oauth.exchange_device_code_with(CLIENT_ID, "x", opts).expect("exchange"),
        oauth.exchange_refresh_token_with(CLIENT_ID, "x", opts).expect("refresh"),
        oauth.revoke_with(CLIENT_ID, "x", opts).expect("revoke"),
    ] {
        assert_eq!(request.timeout, Some(brief), "{}", request.url);
    }
    let (request, _) = oauth.metadata().expect("metadata");
    assert_eq!(request.timeout, Some(Duration::from_secs(30)), "the client's own");
}

#[test]
fn a_zero_oauth_timeout_is_refused_before_any_request() {
    let client = client();
    let oauth = client.oauth();
    let zero = OauthOptions::new().timeout(Duration::zero());
    let device_zero = DeviceAuthorizationOptions::new().timeout(Duration::zero());
    let pending = device(900, 5);
    for (call, answer) in [
        ("metadata", oauth.metadata_with(zero).err()),
        (
            "device_authorization",
            oauth.device_authorization_with(CLIENT_ID, &device_zero).err(),
        ),
        ("exchange", oauth.exchange_device_code_with(CLIENT_ID, "mo_dc_x", zero).err()),
        ("refresh", oauth.exchange_refresh_token_with(CLIENT_ID, "mo_rt_x", zero).err()),
        ("revoke", oauth.revoke_with(CLIENT_ID, "mo_rt_x", zero).err()),
        ("poll", oauth.poll_device_token_with(CLIENT_ID, &pending, zero, Duration::zero()).err()),
    ] {
        match answer {
            Some(OauthError::Client(err)) => {
                assert_eq!(err.kind(), ErrorKind::BadRequest, "{call}");
                assert_eq!(err.message(), "timeout must be positive", "{call}");
            }
            other => panic!("{call}: {other:?}"),
        }
    }
}

fn start(device: &DeviceAuthorization, now: u64) -> (Poll, Duration) {
    let client = client();
    let now = Duration::from_secs(now);
    match client.oauth().poll_device_token(CLIENT_ID, device, now).expect("a poll") {
        (poll, PollAction::Sleep(wait)) => (poll, wait),
        (_, other) => panic!("a poll starts by waiting: {other:?}"),
    }
}

fn slept(action: PollAction) -> Duration {
    match action {
        PollAction::Sleep(wait) => wait,
        other => panic!("{other:?}"),
    }
}

fn expired(action: PollAction) {
    match action {
        PollAction::Return(Err(OauthError::ExpiredToken(refused))) => {
            assert_eq!(refused.error_code, "expired_token");
            assert_eq!(refused.status, None);
            let err = OauthError::ExpiredToken(refused);
            assert_eq!(err.kind(), ErrorKind::BadRequest);
            assert_eq!(err.to_text(), "vpndetection: oauth: expired_token");
        }
        other => panic!("{other:?}"),
    }
}

#[test]
fn a_poll_waits_its_interval_before_every_request() {
    let (mut poll, wait) = start(&device(900, 3), 100);
    assert_eq!(wait, Duration::from_secs(3));
    assert!(matches!(poll.woke(Duration::from_secs(103)), PollAction::Send));
    let wait = slept(poll.answered(Err(refused("authorization_pending")), Duration::from_secs(104)));
    assert_eq!(wait, Duration::from_secs(3));
    assert!(matches!(poll.woke(Duration::from_secs(107)), PollAction::Send));
    match poll.answered(Ok(token()), Duration::from_secs(108)) {
        PollAction::Return(Ok(granted)) => assert_eq!(granted.access_token, "mo_at_x"),
        other => panic!("{other:?}"),
    }
}

#[test]
fn a_poll_asks_with_the_device_code_and_no_key() {
    let client = client();
    let opts = OauthOptions::new().timeout(Duration::from_millis(150));
    let (poll, _) = client
        .oauth()
        .poll_device_token_with(CLIENT_ID, &device(900, 1), opts, Duration::zero())
        .expect("a poll");
    let request = poll.request(&client);
    assert_eq!(request.url, format!("{BASE}/oauth/token"));
    assert_eq!(
        form(&request),
        [
            ("grant_type", "urn:ietf:params:oauth:grant-type:device_code"),
            ("device_code", "mo_dc_x"),
            ("client_id", CLIENT_ID),
        ]
    );
    assert_eq!(request.authorization, None);
    assert_eq!(request.timeout, Some(Duration::from_millis(150)));
}

#[test]
fn slow_down_adds_five_seconds_for_the_rest_of_the_call() {
    let (mut poll, _) = start(&device(900, 1), 0);
    poll.woke(Duration::from_secs(1));
    assert_eq!(
        slept(poll.answered(Err(refused("slow_down")), Duration::from_secs(1))),
        Duration::from_secs(6)
    );
    poll.woke(Duration::from_secs(7));
    assert_eq!(
        slept(poll.answered(Err(refused("authorization_pending")), Duration::from_secs(7))),
        Duration::from_secs(6)
    );
    poll.woke(Duration::from_secs(13));
    assert_eq!(
        slept(poll.answered(Err(refused("slow_down")), Duration::from_secs(13))),
        Duration::from_secs(11)
    );
}

#[test]
fn an_interval_below_one_is_five_seconds() {
    for interval in [0, -7] {
        let (_, wait) = start(&device(900, interval), 0);
        assert_eq!(wait, Duration::from_secs(5), "{interval}");
    }
}

#[test]
fn the_poll_sleeps_the_fraction_left_before_its_deadline() {
    let (mut poll, wait) = start(&device(2, 1), 0);
    assert_eq!(wait, Duration::from_secs(1));
    assert!(matches!(poll.woke(Duration::from_millis(1004)), PollAction::Send));
    let wait =
        slept(poll.answered(Err(refused("authorization_pending")), Duration::from_millis(1250)));
    assert_eq!(wait, Duration::from_millis(750));
    expired(poll.woke(Duration::from_secs(2)));
}

#[test]
fn a_code_that_has_run_out_is_never_exchanged() {
    let (mut poll, wait) = start(&device(0, 5), 9);
    assert_eq!(wait, Duration::zero());
    expired(poll.woke(Duration::from_secs(9)));

    let (mut poll, wait) = start(&device(-3, 5), 9);
    assert_eq!(wait, Duration::zero());
    expired(poll.woke(Duration::from_secs(9)));
}

#[test]
fn any_other_answer_ends_the_poll() {
    for code in ["access_denied", "expired_token", "invalid_grant"] {
        let (mut poll, _) = start(&device(900, 1), 0);
        poll.woke(Duration::from_secs(1));
        match poll.answered(Err(refused(code)), Duration::from_secs(1)) {
            PollAction::Return(Err(err)) => assert_eq!(err.error_code(), Some(code)),
            other => panic!("{code}: {other:?}"),
        }
    }
    let (mut poll, _) = start(&device(900, 1), 0);
    poll.woke(Duration::from_secs(1));
    let failure = OauthError::from(Error::from_response(503, None, None));
    match poll.answered(Err(failure), Duration::from_secs(1)) {
        PollAction::Return(Err(err)) => assert_eq!(err.kind(), ErrorKind::ServerError),
        other => panic!("{other:?}"),
    }
}

#[test]
fn seconds_below_zero_are_none() {
    assert_eq!(seconds(7), Duration::from_secs(7));
    assert_eq!(seconds(-7), Duration::zero());
}
