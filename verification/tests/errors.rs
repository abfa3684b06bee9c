//! What a failure says, and what may be done about it.

use vpndetection::error::{
    envelope_message, kind_for_status, Envelope, Error, ErrorKind, IoFailure, NetworkFailure,
};
use vpndetection::transport::{
    decode, encode_path_segment, file_served, parse_retry_after, redirect, wait_for,
};
use vpndetection::Duration;

fn said(error: Option<&str>, rc: Option<&str>) -> Option<Envelope> {
    Some(Envelope { error: error.map(str::to_owned), rc: rc.map(str::to_owned) })
}

#[test]
fn a_429_is_classified_by_retry_after_not_by_its_status() {
    let waiting = Error::from_response(429, Some(Duration::from_secs(3)), said(Some("slow"), None));
    assert_eq!(waiting.kind().as_str(), "rate_limited");
    assert!(waiting.retryable());
    assert_eq!(waiting.message(), "slow");
    assert_eq!(waiting.retry_after(), Some(Duration::from_secs(3)));

    let spent = Error::from_response(429, None, said(Some("spent"), None));
    assert_eq!(spent.kind().as_str(), "quota_exceeded");
    assert!(!spent.retryable());
    assert_eq!(spent.retry_after(), None);

    let now = Error::from_response(429, Some(Duration::zero()), None);
    assert_eq!(now.kind(), ErrorKind::RateLimited, "a wait of zero is still a wait");
}

#[test]
fn every_status_has_its_kind() {
    for (status, kind, retryable) in [
        (400, ErrorKind::BadRequest, false),
        (401, ErrorKind::Unauthorized, false),
        (403, ErrorKind::Forbidden, false),
        (404, ErrorKind::BadRequest, false),
        (418, ErrorKind::BadRequest, false),
        (499, ErrorKind::BadRequest, false),
        (500, ErrorKind::ServerError, true),
        (503, ErrorKind::ServerError, true),
        (302, ErrorKind::ServerError, true),
    ] {
        assert_eq!(kind_for_status(status, None), kind, "{status}");
        assert_eq!(Error::from_response(status, None, None).retryable(), retryable, "{status}");
    }
}

#[test]
fn every_kind_has_its_spelling() {
    for (kind, spelling) in [
        (ErrorKind::BadRequest, "bad_request"),
        (ErrorKind::Unauthorized, "unauthorized"),
        (ErrorKind::Forbidden, "forbidden"),
        (ErrorKind::RateLimited, "rate_limited"),
        (ErrorKind::QuotaExceeded, "quota_exceeded"),
        (ErrorKind::ServerError, "server_error"),
        (ErrorKind::Network, "network"),
        (ErrorKind::Io, "io"),
    ] {
        assert_eq!(kind.as_str(), spelling);
    }
}

#[test]
fn either_envelope_explains_a_failure() {
    assert_eq!(envelope_message(said(Some("a"), Some("b"))).as_deref(), Some("a"));
    assert_eq!(envelope_message(said(None, Some("b"))).as_deref(), Some("b"));
    assert_eq!(envelope_message(said(Some(""), Some("b"))), None);
    assert_eq!(envelope_message(said(None, None)), None);
    assert_eq!(envelope_message(None), None);
    assert_eq!(
        Error::from_response(502, None, None).message(),
        "request failed with status 502"
    );
}

#[test]
fn each_failure_prints_as_one_line() {
    let api = Error::from_entry(404, "no such address");
    assert_eq!(api.to_text(), "vpndetection: bad_request (HTTP 404): no such address");
    assert_eq!(api.status(), Some(404));

    let reset = Error::Network(NetworkFailure { text: "reset".to_owned(), timed_out: false });
    assert_eq!(reset.to_text(), "vpndetection: network: reset");
    let late = Error::Network(NetworkFailure { text: "sending".to_owned(), timed_out: true });
    assert_eq!(late.to_text(), "vpndetection: network: timed out: sending");
    assert_eq!(late.restated().to_text(), "vpndetection: network: timed out: sending");
    assert_eq!(late.restated().status(), None);

    let disk = Error::Io(IoFailure { text: "disk full".to_owned(), unexpected_eof: false });
    assert_eq!(disk.to_text(), "vpndetection: io: disk full");
    assert_eq!(disk.kind(), ErrorKind::Io);
    assert!(!disk.retryable());

    let config = Error::Config("timeout must be positive".to_owned());
    assert_eq!(config.to_text(), "vpndetection: timeout must be positive");
    assert_eq!(config.kind(), ErrorKind::BadRequest);
    assert_eq!(config.status(), None);
}

#[test]
fn restating_a_failure_keeps_what_it_says() {
    let wait = Some(Duration::from_secs(9));
    let api = Error::from_response(429, wait, said(Some("slow"), None));
    let again = api.restated();
    assert_eq!(again.kind(), api.kind());
    assert_eq!(again.message(), api.message());
    assert_eq!(again.status(), api.status());
    assert_eq!(again.retry_after(), api.retry_after());
    assert_eq!(again.retryable(), api.retryable());

    // A transfer that ended early is worth another attempt until it is restated.
    let short = Error::Io(IoFailure { text: "short".to_owned(), unexpected_eof: true });
    assert!(short.retryable());
    assert!(!short.restated().retryable());
}

#[test]
fn retry_after_is_seconds_or_a_date() {
    assert_eq!(parse_retry_after(Some("120"), 0), Some(Duration::from_secs(120)));
    assert_eq!(parse_retry_after(Some(" 7 "), 0), Some(Duration::from_secs(7)));
    assert_eq!(parse_retry_after(Some("+7"), 0), Some(Duration::from_secs(7)));
    assert_eq!(parse_retry_after(None, 0), None);
    assert_eq!(parse_retry_after(Some("soon"), 0), None);
    assert_eq!(parse_retry_after(Some(""), 0), None);
    assert_eq!(parse_retry_after(Some("-1"), 0), None);

    // 784111777 seconds after 1970.
    let date = Some("Sun, 06 Nov 1994 08:49:37 GMT");
    assert_eq!(parse_retry_after(date, 784_111_707), Some(Duration::from_secs(70)));
    assert_eq!(parse_retry_after(date, 784_111_777), Some(Duration::zero()));
    assert_eq!(parse_retry_after(date, 900_000_000), Some(Duration::zero()));
}

#[test]
fn a_wait_until_a_date_is_never_negative() {
    assert_eq!(wait_for("later", Some(30), 10), Some(Duration::from_secs(20)));
    assert_eq!(wait_for("later", Some(10), 30), Some(Duration::zero()));
    assert_eq!(wait_for("later", None, 30), None);
    assert_eq!(wait_for("5", Some(30), 10), Some(Duration::from_secs(5)));
}

#[test]
fn only_unreserved_bytes_stay_in_a_path() {
    assert_eq!(encode_path_segment("AZaz09-._~"), "AZaz09-._~");
    assert_eq!(encode_path_segment("2606:4700::1111"), "2606%3A4700%3A%3A1111");
    assert_eq!(encode_path_segment("a b/c%"), "a%20b%2Fc%25");
    assert_eq!(encode_path_segment("\u{e9}\u{1f600}"), "%C3%A9%F0%9F%98%80");
    assert_eq!(encode_path_segment(""), "");
    for (a, b) in [("a b", "/c"), ("", "%"), ("\u{e9}", "~")] {
        let joined = encode_path_segment(&format!("{a}{b}"));
        assert_eq!(joined, encode_path_segment(a) + &encode_path_segment(b));
        let plain = |c: char| c.is_ascii_alphanumeric() || "-._~%".contains(c);
        assert!(joined.chars().all(plain), "{joined}");
    }
}

#[test]
fn an_answer_is_decoded_or_refused() {
    let read: Result<u32, String> = Ok(7);
    assert_eq!(decode(200, None, None, read).expect("decoded"), 7);
    let read: Result<u32, String> = Ok(7);
    assert_eq!(decode(299, None, None, read).expect("decoded"), 7);

    let read: Result<u32, String> = Ok(7);
    let err = decode(300, None, said(Some("no"), None), read).expect_err("refused");
    assert_eq!((err.status(), err.message()), (Some(300), "no".to_owned()));

    let read: Result<u32, String> = Err("expected value".to_owned());
    let err = decode(200, Some(Duration::from_secs(1)), None, read).expect_err("undecodable");
    assert_eq!(err.kind(), ErrorKind::ServerError);
    assert_eq!(err.message(), "could not decode the response: expected value");
    assert_eq!(err.retry_after(), None);
}

#[test]
fn a_refused_link_says_so() {
    assert!(file_served(200, None).is_ok());
    let err = file_served(403, None).expect_err("refused");
    assert_eq!(err.kind(), ErrorKind::Forbidden);
    assert_eq!(err.message(), "object storage refused the download link with status 403");
    let err = file_served(429, Some(Duration::from_secs(2))).expect_err("refused");
    assert_eq!(err.kind(), ErrorKind::RateLimited);
}

#[test]
fn only_a_redirect_hands_back_a_link() {
    let link = || Some("https://storage.test/x".to_owned());
    assert_eq!(redirect(307, link(), None, None).expect("a link"), "https://storage.test/x");
    let err = redirect(204, link(), None, None).expect_err("followed");
    assert_eq!(err.kind(), ErrorKind::BadRequest);
    let err = redirect(500, link(), None, None).expect_err("refused");
    assert_eq!(err.message(), "request failed with status 500");
}
