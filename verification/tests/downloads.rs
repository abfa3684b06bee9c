//! Dataset requests, and a transfer that ends whole or not at all.

use vpndetection::database::{
    assert_whole_transfer, partial_path, DownloadAction, DownloadEvent,
};
use vpndetection::error::IoFailure;
use vpndetection::flight::{leads, restate, Flights};
use vpndetection::transport::{Body, Method};
use vpndetection::{Client, Duration, Error, ErrorKind, Format, Lookup, LookupResponse};

fn client() -> Client {
    Client::builder().api_key("key".to_owned()).retries(3).build().expect("build")
}

fn disk_full() -> Error {
    Error::Io(IoFailure { text: "disk full".to_owned(), unexpected_eof: false })
}

#[test]
fn each_format_has_its_spelling() {
    assert_eq!(Format::Csvgz.as_str(), "csvgz");
    assert_eq!(Format::Mmdb.as_str(), "mmdb");
}

#[test]
fn each_database_call_asks_its_endpoint() {
    let client = client();
    let database = client.database();
    let base = "https://api.vpndetection.io/api/v1/database";
    for (request, path, query) in [
        (database.list(), "list", vec![]),
        (database.metadata("cdn_ip_v1"), "metadata", vec![("id", "cdn_ip_v1")]),
        (
            database.checksums("cdn_ip_v1", Format::Mmdb),
            "checksum",
            vec![("id", "cdn_ip_v1"), ("format", "mmdb")],
        ),
        (database.downloads(None), "downloads", vec![]),
        (database.downloads(Some(25)), "downloads", vec![("limit", "25")]),
        (
            database.download_url("cdn_ip_v1", Format::Csvgz),
            "download",
            vec![("id", "cdn_ip_v1"), ("format", "csvgz")],
        ),
    ] {
        assert_eq!(request.url, format!("{base}/{path}"));
        let sent: Vec<(&str, &str)> =
            request.query.iter().map(|(k, v)| (k.as_str(), v.as_str())).collect();
        assert_eq!(sent, query);
        assert_eq!(request.method, Method::Get);
        assert!(matches!(request.body, Body::Empty));
        assert_eq!(request.authorization.as_deref(), Some("Bearer key"));
        assert_eq!(request.timeout, Some(Duration::from_secs(30)));
    }
    assert_eq!(database.retry().remaining, 3);
}

#[test]
fn a_presigned_link_is_fetched_without_the_key() {
    let client = client();
    let request = client.database().fetch_file("https://storage.test/x?sig=1");
    assert_eq!(request.url, "https://storage.test/x?sig=1");
    assert_eq!(request.authorization, None);
    assert_eq!(request.timeout, None, "a transfer runs for as long as the file takes");
}

#[test]
fn a_partial_file_keeps_its_extension() {
    assert_eq!(partial_path("data/cdn_ip_v1.csv.gz"), "data/cdn_ip_v1.csv.gz.part");
}

#[test]
fn a_short_transfer_is_retryable_and_not_handed_over() {
    assert!(assert_whole_transfer(None, 5).is_ok());
    assert!(assert_whole_transfer(Some(5), 5).is_ok());
    for (declared, written) in [(8, 5), (3, 5)] {
        let err = assert_whole_transfer(Some(declared), written).expect_err("short");
        assert_eq!(err.kind(), ErrorKind::Io);
        assert!(err.retryable());
        assert_eq!(
            err.message(),
            format!("the transfer ended after {written} of {declared} bytes")
        );
    }
    let client = client();
    let database = client.database();
    assert_eq!(database.download_bytes(Some(2), vec![7, 8]).expect("whole"), [7, 8]);
    assert!(database.download_bytes(Some(3), vec![7, 8]).is_err());
}

/// The actions of a download that is told these.
fn run(declared: Option<u64>, events: Vec<DownloadEvent>) -> Vec<DownloadAction> {
    let client = client();
    let (mut download, first) = client.database().download(declared);
    let mut actions = vec![first];
    for event in events {
        actions.push(download.step(event));
    }
    actions
}

fn last(mut actions: Vec<DownloadAction>) -> DownloadAction {
    actions.pop().expect("an action")
}

#[test]
fn a_whole_transfer_is_named_once_it_is_closed() {
    let actions = run(
        Some(5),
        vec![
            DownloadEvent::Succeeded,
            DownloadEvent::Chunk(3),
            DownloadEvent::Succeeded,
            DownloadEvent::Chunk(2),
            DownloadEvent::Succeeded,
            DownloadEvent::Ended,
            DownloadEvent::Succeeded,
            DownloadEvent::Succeeded,
        ],
    );
    assert!(matches!(
        actions[..],
        [
            DownloadAction::Create,
            DownloadAction::Read,
            DownloadAction::Write,
            DownloadAction::Read,
            DownloadAction::Write,
            DownloadAction::Read,
            DownloadAction::Close,
            DownloadAction::Rename,
            DownloadAction::Return(Ok(5)),
        ]
    ));
}

#[test]
fn a_transfer_that_ends_early_is_removed_and_never_named() {
    let actions = run(
        Some(9),
        vec![
            DownloadEvent::Succeeded,
            DownloadEvent::Chunk(3),
            DownloadEvent::Succeeded,
            DownloadEvent::Ended,
            DownloadEvent::Succeeded,
            DownloadEvent::Removed,
        ],
    );
    assert!(!actions.iter().any(|a| matches!(a, DownloadAction::Rename)));
    assert!(matches!(actions[5], DownloadAction::Remove));
    match last(actions) {
        DownloadAction::Return(Err(err)) => {
            assert_eq!(err.message(), "the transfer ended after 3 of 9 bytes");
        }
        other => panic!("{other:?}"),
    }
}

#[test]
fn a_failure_at_any_step_removes_the_partial_file() {
    let prefixes: Vec<fn() -> Vec<DownloadEvent>> = vec![
        || vec![],
        || vec![DownloadEvent::Succeeded],
        || vec![DownloadEvent::Succeeded, DownloadEvent::Chunk(3)],
        || vec![DownloadEvent::Succeeded, DownloadEvent::Ended],
        || vec![DownloadEvent::Succeeded, DownloadEvent::Ended, DownloadEvent::Succeeded],
    ];
    for prefix in prefixes {
        let mut events = prefix();
        events.push(DownloadEvent::Failed(disk_full()));
        events.push(DownloadEvent::Removed);
        let actions = run(None, events);
        assert!(matches!(actions[actions.len() - 2], DownloadAction::Remove));
        match last(actions) {
            DownloadAction::Return(Err(err)) => assert_eq!(err.message(), "disk full"),
            other => panic!("{other:?}"),
        }
    }
}

fn owned(ips: &[&str]) -> Vec<String> {
    ips.iter().map(|ip| (*ip).to_owned()).collect()
}

#[test]
fn concurrent_misses_share_one_request() {
    let mut flights = Flights::new();
    assert!(flights.has_room(2));
    let first = flights.board(&owned(&["1.1.1.1", "2.2.2.2"]));
    assert_eq!(first.led.len(), 2);
    assert!(first.joined.is_empty());
    assert!(leads(&first.led, "1.1.1.1"));
    assert!(!leads(&first.led, "3.3.3.3"));

    let second = flights.board(&owned(&["2.2.2.2", "3.3.3.3"]));
    assert_eq!(second.joined, [first.led[1].clone()]);
    assert_eq!(second.led[0].0, "3.3.3.3");

    flights.land("2.2.2.2", first.led[1].1);
    let third = flights.board(&owned(&["2.2.2.2"]));
    assert!(leads(&third.led, "2.2.2.2"), "a landed address can be led again");
    assert_ne!(third.led[0].1, first.led[1].1);
}

#[test]
fn an_abandoned_address_can_be_led_again() {
    let mut flights = Flights::new();
    let first = flights.board(&owned(&["1.1.1.1", "2.2.2.2"]));
    flights.land("1.1.1.1", first.led[0].1);
    let again = flights.board(&owned(&["1.1.1.1"]));
    // Giving up the first boarding leaves the flight that replaced its own.
    flights.abandon(&first.led);
    let joined = flights.board(&owned(&["1.1.1.1", "2.2.2.2"]));
    assert_eq!(joined.joined, again.led);
    assert!(leads(&joined.led, "2.2.2.2"));
}

#[test]
fn a_landed_answer_is_each_waiters_own() {
    let served = Lookup::served(LookupResponse {
        ip: "1.1.1.1".to_owned(),
        is_vpn: true,
        is_cdn: None,
        is_dcproxy: None,
        is_hosting: Some(false),
        is_mobproxy: None,
        is_relay: None,
        is_resproxy: None,
        is_tor: None,
        cdn: None,
        dcproxy: None,
        hosting: None,
        mobproxy: None,
        relay: None,
        resproxy: None,
        tor: None,
        vpn: None,
    });
    let answer = Ok(served.clone());
    assert_eq!(restate(&answer).expect("an answer"), served);

    let failed = restate(&Err(Error::from_entry(404, "no"))).expect_err("a failure");
    assert_eq!((failed.status(), failed.message()), (Some(404), "no".to_owned()));
}
