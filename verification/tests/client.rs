//! What a client asks for, how it waits, and what it hands back, driven against
//! an origin that lives in the test.

use indexmap::IndexMap;
use serde_json::Value;
use vpndetection::batch::{arrivals, dedupe, lookup_chunk, BatchAnswer, EntryFailure};
use vpndetection::client::{Action, Event, LookupCall};
use vpndetection::error::{Envelope, NetworkFailure};
use vpndetection::flight::Flights;
use vpndetection::retry::Retry;
use vpndetection::transport::{decode, parse_retry_after, redirect, Body, Method, Request};
use vpndetection::{BatchOptions, Client, ClientBuilder, Duration, Error, ErrorKind, Format};
use vpndetection::{Lookup, LookupOptions, LookupResponse};

const BASE: &str = "http://127.0.0.1:9";

/// What an origin answers one path with.
struct Route {
    path: String,
    status: u16,
    retry_after: Option<&'static str>,
    body: String,
}

/// An origin, the requests it saw, and the cache in front of it.
struct Origin {
    routes: Vec<Route>,
    requests: Vec<Request>,
    sleeps: Vec<Duration>,
    cache: Vec<(String, Lookup)>,
    flights: Flights,
    down: bool,
}

impl Origin {
    fn new() -> Self {
        Origin {
            routes: Vec::new(),
            requests: Vec::new(),
            sleeps: Vec::new(),
            cache: Vec::new(),
            flights: Flights::new(),
            down: false,
        }
    }

    fn route(mut self, path: &str, status: u16, body: &str) -> Self {
        self.routes.push(Route {
            path: path.to_owned(),
            status,
            retry_after: None,
            body: body.to_owned(),
        });
        self
    }

    fn throttled(mut self, path: &str, status: u16, wait: &'static str, body: &str) -> Self {
        self.routes.push(Route {
            path: path.to_owned(),
            status,
            retry_after: Some(wait),
            body: body.to_owned(),
        });
        self
    }

    /// Answers each of these with `is_vpn` false.
    fn ok(mut self, ips: &[String]) -> Self {
        for ip in ips {
            let body = format!("{{\"ip\":\"{ip}\",\"is_vpn\":false}}");
            self = self.route(&format!("/{ip}"), 200, &body);
        }
        self
    }

    fn count(&self) -> usize {
        self.requests.len()
    }

    fn find(&self, path: &str) -> Option<&Route> {
        self.routes.iter().find(|r| r.path == path)
    }

    fn kept(&self, ip: &str) -> Option<Lookup> {
        self.cache.iter().find(|(k, _)| k == ip).map(|(_, v)| v.clone())
    }

    fn serve<T>(
        &mut self,
        request: Request,
        read: fn(&str) -> Result<T, String>,
    ) -> Result<T, Error> {
        let path = request.url.strip_prefix(BASE).expect("a request to the base url").to_owned();
        self.requests.push(request);
        if self.down {
            let text = "error sending request".to_owned();
            return Err(Error::Network(NetworkFailure { text, timed_out: true }));
        }
        match self.find(&path) {
            Some(r) => decode(
                r.status,
                parse_retry_after(r.retry_after, 0),
                envelope(&r.body),
                read(&r.body),
            ),
            None => decode(404, None, envelope("{\"error\":\"no route\"}"), read("")),
        }
    }

    /// Does what a lookup asks for until it hands something back.
    fn run(
        &mut self,
        client: &Client,
        ip: &str,
        started: (LookupCall, Action),
    ) -> Result<Lookup, Error> {
        let (mut call, mut action) = started;
        let mut led = Vec::new();
        loop {
            let event = match action {
                Action::Read => Event::Read(self.kept(ip)),
                Action::Board => {
                    assert!(self.flights.has_room(1));
                    let boarding = self.flights.board(&vec![ip.to_owned()]);
                    let event = Event::boarded(&boarding);
                    led = boarding.led;
                    event
                }
                Action::Await => panic!("nothing else is in flight"),
                Action::Send => Event::Answered(self.serve(call.request(client), read_answer)),
                Action::Sleep(wait) => {
                    self.sleeps.push(wait);
                    Event::Slept
                }
                Action::Store(answer) => {
                    self.cache.push((ip.to_owned(), answer));
                    Event::Stored
                }
                Action::Land(_) => {
                    for (ip, flight) in &led {
                        self.flights.land(ip, *flight);
                    }
                    Event::Landed
                }
                Action::Return(outcome) => return outcome,
            };
            action = call.step(event);
        }
    }

    fn lookup(&mut self, client: &Client, ip: &str) -> Result<Lookup, Error> {
        self.run(client, ip, client.lookup(ip))
    }

    fn serve_batch(&mut self, request: Request) -> Result<BatchAnswer, Error> {
        let ips = match &request.body {
            Body::Batch(ips) => ips.clone(),
            other => panic!("a batch carries its addresses, not {other:?}"),
        };
        assert_eq!(request.method, Method::Post);
        assert_eq!(request.url, format!("{BASE}/batch"));
        self.requests.push(request);
        if self.down {
            let text = "error sending request".to_owned();
            return Err(Error::Network(NetworkFailure { text, timed_out: true }));
        }
        if let Some(r) = self.find("/batch") {
            let read = Err("not a batch answer".to_owned());
            let wait = parse_retry_after(r.retry_after, 0);
            return decode(r.status, wait, envelope(&r.body), read);
        }
        let mut answer = BatchAnswer { results: Vec::new(), errors: Vec::new() };
        for ip in ips {
            match self.find(&format!("/{ip}")) {
                Some(r) if r.status == 200 => {
                    let served = read_answer(&r.body).expect("a readable answer");
                    answer.results.push((ip, served));
                }
                Some(r) => {
                    let error = envelope(&r.body).and_then(|e| e.error).unwrap_or_default();
                    answer.errors.push((ip, EntryFailure { error, status: r.status as i32 }));
                }
                None => {
                    let failure = EntryFailure { error: "bad address".to_owned(), status: 400 };
                    answer.errors.push((ip, failure));
                }
            }
        }
        Ok(answer)
    }

    /// Sends a batch's chunks last first, as a network that answers out of order
    /// would.
    fn batch(
        &mut self,
        client: &Client,
        ips: &[String],
        opts: BatchOptions,
    ) -> IndexMap<String, Result<Lookup, Error>> {
        let call = match client.lookup_batch(&ips.to_vec(), opts) {
            Ok(call) => call,
            Err(refused) => return refused,
        };
        let mut hits = Vec::new();
        for (ip, read) in call.unique().iter().zip(call.reads()) {
            hits.push(if read { self.kept(ip) } else { None });
        }
        let plan = call.plan(hits);
        assert!(self.flights.has_room(plan.pending.len()));
        let takeoff = call.board(&mut self.flights, &plan.pending);
        assert!(takeoff.boarding.joined.is_empty(), "nothing else is in flight");
        let leading = call.lead(
            &takeoff.asked,
            takeoff.asked.iter().map(|ip| self.kept(ip)).collect(),
        );
        let mut landed = leading.found;
        for chunk in leading.chunks.iter().rev() {
            let mut retry = call.retry();
            let mut answered = self.serve_batch(call.request(client, chunk));
            while let Err(err) = &answered {
                match retry.failed(err) {
                    Some(wait) => self.sleeps.push(wait),
                    None => break,
                }
                answered = self.serve_batch(call.request(client, chunk));
            }
            let answers = lookup_chunk(chunk, answered);
            self.cache.extend(call.keeps(&answers));
            landed.extend(answers);
        }
        self.flights.abandon(&takeoff.boarding.led);
        assert!(call.answered(&plan.local, &landed));
        call.finish(plan.local, landed)
    }
}

fn flag(body: &Value, name: &str) -> Option<bool> {
    body.get(name).and_then(Value::as_bool)
}

fn read_answer(text: &str) -> Result<LookupResponse, String> {
    let body: Value = serde_json::from_str(text).map_err(|e| e.to_string())?;
    let ip = body.get("ip").and_then(Value::as_str).ok_or("missing field `ip`")?.to_owned();
    let is_vpn = flag(&body, "is_vpn").ok_or("missing field `is_vpn`")?;
    Ok(LookupResponse {
        ip,
        is_vpn,
        is_cdn: flag(&body, "is_cdn"),
        is_dcproxy: flag(&body, "is_dcproxy"),
        is_hosting: flag(&body, "is_hosting"),
        is_mobproxy: flag(&body, "is_mobproxy"),
        is_relay: flag(&body, "is_relay"),
        is_resproxy: flag(&body, "is_resproxy"),
        is_tor: flag(&body, "is_tor"),
        cdn: None,
        dcproxy: None,
        hosting: None,
        mobproxy: None,
        relay: None,
        resproxy: None,
        tor: None,
        vpn: None,
    })
}

fn envelope(text: &str) -> Option<Envelope> {
    let body: Value = serde_json::from_str(text).ok()?;
    let member = |name: &str| body.get(name).and_then(Value::as_str).map(str::to_owned);
    Some(Envelope { error: member("error"), rc: member("rc") })
}

fn builder() -> ClientBuilder {
    Client::builder().base_url(BASE.to_owned())
}

fn build(builder: ClientBuilder) -> Client {
    builder.build().expect("build")
}

fn owned(ips: &[&str]) -> Vec<String> {
    ips.iter().map(|ip| (*ip).to_owned()).collect()
}

/// Enough addresses for seven chunks of the batch endpoint's 1000.
fn many_addrs() -> Vec<String> {
    (0..6001).map(|i| format!("9.{}.{}.{}", 1 + i / 65536, (i / 256) % 256, i % 256)).collect()
}

fn millis(n: u64) -> Duration {
    Duration::from_millis(n)
}

#[test]
fn batch_concurrency_is_configurable_per_call() {
    let client = build(builder().no_cache());
    let addrs = many_addrs();

    let call = client.lookup_batch(&addrs, BatchOptions::new().concurrency(3)).expect("a batch");

    assert_eq!(call.concurrency(), 3);
    let plan = call.plan(call.unique().iter().map(|_| None).collect());
    let takeoff = call.board(&mut Flights::new(), &plan.pending);
    assert!(takeoff.boarding.led.is_empty(), "a client that keeps nothing shares nothing");
    let leading = call.lead(&takeoff.asked, takeoff.asked.iter().map(|_| None).collect());
    assert_eq!(leading.chunks.len(), 7, "one request per chunk of 1000");
}

#[test]
fn a_per_call_concurrency_overrides_the_client_default() {
    let client = build(builder().no_cache().concurrency(2));
    let ips = owned(&["1.1.1.1"]);
    let call = client.lookup_batch(&ips, BatchOptions::new().concurrency(6)).expect("a batch");
    assert_eq!(call.concurrency(), 6);
}

#[test]
fn without_an_override_the_client_concurrency_still_applies() {
    let client = build(builder().no_cache().concurrency(2));
    let call = client.lookup_batch(&owned(&["1.1.1.1"]), BatchOptions::new()).expect("a batch");
    assert_eq!(call.concurrency(), 2);
}

#[test]
fn a_per_call_concurrency_below_one_is_refused_before_any_request() {
    let mut origin = Origin::new().ok(&owned(&["1.1.1.1", "9.9.9.9"]));
    let client = build(builder().no_cache());

    let ips = owned(&["1.1.1.1", "10.0.0.1", "9.9.9.9"]);
    let got = origin.batch(&client, &ips, BatchOptions::new().concurrency(0));

    assert_eq!(origin.count(), 0, "a refused batch still sent a request");
    assert_eq!(got.keys().collect::<Vec<_>>(), ["1.1.1.1", "10.0.0.1", "9.9.9.9"]);
    for (ip, answer) in &got {
        let err = answer.as_ref().expect_err("a refused batch answered an address");
        assert_eq!(err.kind(), ErrorKind::BadRequest, "{ip}: {}", err.to_text());
        assert!(!err.retryable(), "{ip}: retrying cannot fix the option");
    }
}

#[test]
fn a_batch_of_any_size_is_chunked_rather_than_refused() {
    let addrs: Vec<String> = many_addrs().into_iter().take(2500).collect();
    let mut origin = Origin::new().ok(&addrs);
    let client = build(builder().no_cache());

    let got = origin.batch(&client, &addrs, BatchOptions::new());

    assert_eq!(origin.count(), 3, "2500 addresses are three chunks of up to 1000");
    for call in &origin.requests {
        assert_eq!(call.url, format!("{BASE}/batch"));
        match &call.body {
            Body::Batch(ips) => {
                assert!(ips.len() <= 1000, "a chunk carried {} addresses", ips.len())
            }
            other => panic!("{other:?}"),
        }
    }
    assert_eq!(got.len(), 2500);
    for ip in &addrs {
        let answer = got[ip].as_ref().unwrap_or_else(|e| panic!("{ip}: {}", e.to_text()));
        assert_eq!(&answer.ip, ip, "{ip} should be answered for itself");
    }
}

#[test]
fn retries_are_configurable_per_call() {
    let mut origin = Origin::new().route("/9.9.9.9", 500, r#"{"error":"lookup failed"}"#);
    let client = build(builder().no_cache().retries(0));

    let started = client.lookup_with("9.9.9.9", LookupOptions::new().retries(2));
    origin.run(&client, "9.9.9.9", started).expect_err("a 500 should have failed the lookup");

    // One initial attempt plus two retries, rather than the client's zero.
    assert_eq!(origin.count(), 3);
    assert_eq!(origin.sleeps, [millis(250), millis(500)]);
}

#[test]
fn a_per_call_timeout_below_the_clients_is_the_one_that_fires() {
    let client = build(builder().no_cache().retries(0).timeout(Duration::from_secs(10)));
    let opts = LookupOptions::new().timeout(millis(150));

    let (lookup, _) = client.lookup_with("9.9.9.9", opts);
    let (my_ip, _) = client.my_ip_with(opts);
    let (entitlement, _) = client.my_entitlement_with(opts);
    for request in [lookup.request(&client), my_ip.request(&client), entitlement] {
        assert_eq!(request.timeout, Some(millis(150)), "{}", request.url);
    }

    let mut origin = Origin::new();
    origin.down = true;
    let err = origin.lookup(&client, "9.9.9.9").expect_err("nothing answered");
    assert_timed_out("lookup", &err);
    assert_eq!(origin.requests[0].timeout, Some(Duration::from_secs(10)));
}

#[test]
fn a_per_call_timeout_bounds_each_chunk_of_a_batch() {
    let mut origin = Origin::new();
    origin.down = true;
    let client = build(builder().no_cache().retries(0).timeout(Duration::from_secs(10)));

    let ips = owned(&["1.1.1.1", "9.9.9.9"]);
    let got = origin.batch(&client, &ips, BatchOptions::new().timeout(millis(150)));

    assert_eq!(origin.requests[0].timeout, Some(millis(150)));
    assert_eq!(got.len(), 2);
    for (ip, answer) in &got {
        let err = answer.as_ref().expect_err("a stalled chunk cannot have answered");
        assert_timed_out(ip, err);
        assert_eq!(err.status(), None);
    }
}

#[test]
fn the_client_timeout_bounds_the_database_calls() {
    let client = build(builder().api_key("key".to_owned()).timeout(millis(150)));
    let database = client.database();
    for request in [database.list(), database.download_url("cdn_ip_v1", Format::Csvgz)] {
        assert_eq!(request.timeout, Some(millis(150)), "{}", request.url);
    }
    assert_eq!(database.fetch_file("https://storage.test/x").timeout, None);
}

#[test]
fn a_spent_quota_is_never_retried() {
    let mut origin =
        Origin::new().route("/9.9.9.9", 429, r#"{"error":"request allowance exceeded"}"#);
    let client = build(builder().no_cache().retries(5));

    let err = origin.lookup(&client, "9.9.9.9").expect_err("a 429 should fail");

    assert_eq!(err.kind(), ErrorKind::QuotaExceeded);
    assert_eq!(origin.count(), 1);
}

#[test]
fn a_rate_limit_is_retried_after_the_server_supplied_wait() {
    let mut origin =
        Origin::new().throttled("/9.9.9.9", 429, "1", r#"{"error":"rate limit exceeded"}"#);
    let client = build(builder().no_cache().retries(1));

    origin.lookup(&client, "9.9.9.9").expect_err("the lookup should still have failed");

    assert_eq!(origin.count(), 2);
    // The header, not the backoff schedule, decides the wait.
    assert_eq!(origin.sleeps, [Duration::from_secs(1)]);
}

#[test]
fn is_bogon_is_on_the_client_and_agrees_with_the_standalone_function() {
    let client = build(builder());
    for (ip, expect) in [("10.0.0.1", true), ("8.8.8.8", false), ("::1", true), ("nope", false)] {
        assert_eq!(client.is_bogon(ip), expect, "{ip}");
        assert_eq!(client.is_bogon(ip), vpndetection::is_bogon(ip), "{ip}");
    }
}

#[test]
fn absent_and_false_are_different_values() {
    let mut origin = Origin::new()
        .route("/1.1.1.1", 200, r#"{"ip":"1.1.1.1","is_vpn":false}"#)
        .route("/8.8.4.4", 200, r#"{"ip":"8.8.4.4","is_vpn":false,"is_hosting":false}"#);
    let client = build(builder());

    let free = origin.lookup(&client, "1.1.1.1").expect("lookup");
    assert_eq!(free.is_hosting, None, "a field the plan omits must be None");
    assert!(!free.is_hosting_or_false());

    let served = origin.lookup(&client, "8.8.4.4").expect("lookup");
    assert_eq!(served.is_hosting, Some(false), "checked-and-no must be Some(false)");
    assert!(!served.is_hosting_or_false());
}

#[test]
fn or_false_readers_coalesce_an_absent_flag() {
    let mut origin = Origin::new().route(
        "/45.83.91.1",
        200,
        r#"{"ip":"45.83.91.1","is_vpn":true,"is_hosting":true,"is_tor":false}"#,
    );
    let client = build(builder());

    let result = origin.lookup(&client, "45.83.91.1").expect("lookup");

    assert!(result.is_vpn, "the wire answer reads straight off the result");
    assert!(result.is_hosting_or_false());
    assert!(!result.is_tor_or_false(), "a present false flag reads as false");
    assert!(!result.is_dcproxy_or_false(), "an absent flag reads as false");
    assert_eq!(result.is_dcproxy, None, "the reader must not populate what it reads");
}

#[test]
fn every_or_false_reader_reads_its_own_flag() {
    let read = |name: &str| {
        let body = format!("{{\"ip\":\"1.1.1.1\",\"is_vpn\":false,\"{name}\":true}}");
        let found = Lookup::served(read_answer(&body).expect("a readable answer"));
        [
            found.is_hosting_or_false(),
            found.is_relay_or_false(),
            found.is_tor_or_false(),
            found.is_cdn_or_false(),
            found.is_resproxy_or_false(),
            found.is_dcproxy_or_false(),
            found.is_mobproxy_or_false(),
        ]
    };
    let names =
        ["is_hosting", "is_relay", "is_tor", "is_cdn", "is_resproxy", "is_dcproxy", "is_mobproxy"];
    for (place, name) in names.iter().enumerate() {
        let found = read(name);
        for (other, value) in found.iter().enumerate() {
            assert_eq!(*value, other == place, "{name}");
        }
    }
}

#[test]
fn download_url_returns_the_redirect_rather_than_following_it() {
    let client = build(builder().api_key("key".to_owned()));

    let request = client.database().download_url("vpn_ip_extended_v1", Format::Mmdb);

    assert_eq!(request.url, format!("{BASE}/api/v1/database/download"));
    assert_eq!(
        request.query,
        [("id".to_owned(), "vpn_ip_extended_v1".to_owned()), ("format".into(), "mmdb".into())]
    );
    assert_eq!(request.authorization.as_deref(), Some("Bearer key"));
    let location = format!("{BASE}/huge.mmdb");
    let url = redirect(302, Some(location.clone()), None, None).expect("download_url");
    assert_eq!(url, location);
}

#[test]
fn a_redirect_following_http_client_is_refused_not_obeyed() {
    let err = redirect(200, None, None, None)
        .expect_err("a followed redirect has no Location left to return");
    assert!(err.message().contains("redirect::Policy::none"), "{}", err.message());
}

#[test]
fn a_redirect_without_a_location_and_a_refusal_are_told_apart() {
    let err = redirect(302, None, None, None).expect_err("nowhere to go");
    assert_eq!(err.kind(), ErrorKind::ServerError);
    assert_eq!(err.message(), "the redirect carried no Location header");
    assert_eq!(err.status(), Some(302));

    let refused = envelope(r#"{"rc":"NO_LICENSE"}"#);
    let err = redirect(403, None, None, refused).expect_err("refused");
    assert_eq!(err.kind(), ErrorKind::Forbidden);
    assert_eq!(err.message(), "NO_LICENSE");
}

#[test]
fn an_unknown_dataset_is_not_retried() {
    let mut origin =
        Origin::new().route("/api/v1/database/metadata", 404, r#"{"rc":"NOT_FOUND"}"#);
    let client = build(builder().api_key("key".to_owned()).retries(3));
    let database = client.database();

    let mut retry = database.retry();
    let err = origin
        .serve(database.metadata("no_such_dataset"), read_answer)
        .expect_err("404");

    assert_eq!(retry.failed(&err), None);
    assert_eq!(err.kind(), ErrorKind::BadRequest);
    assert!(!err.retryable());
    assert_eq!(err.message(), "NOT_FOUND");
    assert_eq!(origin.requests[0].query, [("id".to_owned(), "no_such_dataset".to_owned())]);
}

#[test]
fn the_builder_rejects_unusable_options() {
    assert!(Client::builder().concurrency(0).build().is_err());
    assert!(Client::builder().cache(0, Duration::from_secs(60)).build().is_err());
    assert!(Client::builder().cache(10, Duration::zero()).build().is_err());
    assert!(Client::builder().timeout(Duration::zero()).build().is_err());
    assert!(Client::builder().base_url("not a url".to_owned()).build().is_err());
    assert!(Client::builder().base_url("/relative".to_owned()).build().is_err());
}

#[test]
fn the_builder_says_what_it_cannot_use() {
    let refused = |builder: ClientBuilder| builder.build().expect_err("unusable").message();
    assert_eq!(refused(builder().concurrency(0)), "concurrency must be at least 1");
    assert_eq!(
        refused(builder().cache(0, Duration::from_secs(60))),
        "cache capacity must be at least 1"
    );
    assert_eq!(refused(builder().cache(10, Duration::zero())), "cache ttl must be positive");
    assert_eq!(refused(builder().timeout(Duration::zero())), "timeout must be positive");
    assert_eq!(
        refused(Client::builder().base_url("data:,x".to_owned())),
        "base url \"data:,x\" needs a scheme and a host"
    );
    assert_eq!(
        refused(Client::builder().base_url("/a\"b".to_owned())),
        "base url \"/a\\\"b\": relative URL without a base"
    );
}

#[test]
fn a_client_starts_with_the_defaults() {
    let client = Client::new().expect("build");
    assert_eq!(client.transport.base_url, "https://api.vpndetection.io");
    assert_eq!(client.transport.api_key, None);
    let cache = client.cache.expect("a cache");
    assert_eq!((cache.capacity, cache.ttl), (10_000, Duration::from_secs(3600)));
    assert_eq!((client.concurrency, client.retries), (8, 2));
    assert_eq!(client.timeout, Duration::from_secs(30));
}

#[test]
fn the_base_url_loses_its_trailing_slashes() {
    let client = build(Client::builder().base_url(format!("{BASE}//")));
    assert_eq!(client.transport.base_url, BASE);
}

#[test]
fn an_empty_key_is_no_key() {
    for key in [None, Some(String::new())] {
        let mut builder = builder();
        if let Some(key) = key {
            builder = builder.api_key(key);
        }
        let client = build(builder);
        let (call, _) = client.lookup("9.9.9.9");
        assert_eq!(call.request(&client).authorization, None);
    }
}

#[test]
fn an_ipv6_address_survives_the_path_template() {
    let mut origin = Origin::new().route(
        "/2606%3A4700%3A4700%3A%3A1111",
        200,
        r#"{"ip":"2606:4700:4700::1111","is_vpn":false}"#,
    );
    let client = build(builder());

    let result = origin.lookup(&client, "2606:4700:4700::1111").expect("lookup");

    assert_eq!(result.ip, "2606:4700:4700::1111");
}

#[test]
fn my_ip_classifies_the_calling_address() {
    let mut origin = Origin::new().route("/myip", 200, r#"{"ip":"45.83.91.1","is_vpn":true}"#);
    let client = build(builder());

    let answer = origin.run(&client, "", client.my_ip()).expect("my_ip");

    assert_eq!(answer.ip, "45.83.91.1");
    assert!(answer.is_vpn);
}

#[test]
fn my_ip_is_not_cached() {
    let mut origin = Origin::new().route("/myip", 200, r#"{"ip":"45.83.91.1","is_vpn":true}"#);
    let client = build(builder());

    origin.run(&client, "", client.my_ip()).expect("my_ip");
    origin.run(&client, "", client.my_ip()).expect("my_ip");

    assert_eq!(origin.count(), 2);
    assert!(origin.cache.is_empty());
}

#[test]
fn my_entitlement_surfaces_an_unauthorized_key() {
    let mut origin =
        Origin::new().route("/api/v1/entitlement", 401, r#"{"error":"invalid API key"}"#);
    let client = build(builder().retries(0));

    let (request, mut retry) = client.my_entitlement();
    let err = origin.serve(request, read_answer).expect_err("expected an error");

    assert_eq!(err.kind(), ErrorKind::Unauthorized);
    assert_eq!(retry.failed(&err), None);
}

#[test]
fn a_batch_dedupes_short_circuits_bogons_and_keys_by_address() {
    let mut origin = Origin::new().ok(&owned(&["1.1.1.1", "8.8.8.8"]));
    let client = build(builder());

    let ips = owned(&["8.8.8.8", "10.0.0.1", "1.1.1.1", "8.8.8.8", "10.0.0.1"]);
    let got = origin.batch(&client, &ips, BatchOptions::new());

    // Keyed by address, not positional, and in the order each was first seen.
    assert_eq!(got.keys().collect::<Vec<_>>(), ["8.8.8.8", "10.0.0.1", "1.1.1.1"]);
    assert_eq!(origin.count(), 1);
    match &origin.requests[0].body {
        Body::Batch(sent) => assert_eq!(sent, &owned(&["8.8.8.8", "1.1.1.1"])),
        other => panic!("{other:?}"),
    }
    assert!(got["10.0.0.1"].as_ref().expect("answered").is_bogon);
    assert!(!got["8.8.8.8"].as_ref().expect("answered").is_bogon);
}

#[test]
fn one_bad_address_does_not_lose_the_rest_of_the_batch() {
    let mut origin = Origin::new().ok(&owned(&["1.1.1.1"]));
    let client = build(builder().retries(0));

    let ips = owned(&["1.1.1.1", "not-an-ip"]);
    let got = origin.batch(&client, &ips, BatchOptions::new());

    assert_eq!(got.keys().collect::<Vec<_>>(), ["1.1.1.1", "not-an-ip"]);
    let err = got["not-an-ip"].as_ref().expect_err("it should carry its own error");
    assert_eq!(err.kind(), ErrorKind::BadRequest);
    assert_eq!(err.status(), Some(400));
    assert_eq!(err.message(), "bad address");
    let good = got["1.1.1.1"].as_ref().expect("the good address should still have answered");
    assert!(!good.is_vpn);
}

#[test]
fn an_entry_the_batch_left_out_or_misnumbered_is_a_server_error() {
    let chunk = owned(&["1.1.1.1", "2.2.2.2"]);
    let errors = vec![("2.2.2.2".to_owned(), EntryFailure { error: "?".to_owned(), status: -1 })];
    let got = lookup_chunk(&chunk, Ok(BatchAnswer { results: Vec::new(), errors }));

    let err = got[0].1.as_ref().expect_err("it was left out");
    assert_eq!(err.message(), "the batch answer did not include 1.1.1.1");
    assert_eq!(err.status(), Some(200));
    let err = got[1].1.as_ref().expect_err("it failed");
    assert_eq!((err.kind(), err.status()), (ErrorKind::ServerError, Some(500)));
}

#[test]
fn a_batch_answer_wins_over_the_failure_beside_it() {
    let chunk = owned(&["1.1.1.1"]);
    let served = read_answer(r#"{"ip":"1.1.1.1","is_vpn":true}"#).expect("a readable answer");
    let answer = BatchAnswer {
        results: vec![("1.1.1.1".to_owned(), served)],
        errors: vec![("1.1.1.1".to_owned(), EntryFailure { error: "?".into(), status: 500 })],
    };
    let got = lookup_chunk(&chunk, Ok(answer));
    assert!(got[0].1.as_ref().expect("served").answer.is_vpn);
}

#[test]
fn a_failed_chunk_marks_every_address_in_it() {
    let mut origin =
        Origin::new().throttled("/batch", 503, "2", r#"{"error":"overloaded"}"#);
    let client = build(builder().retries(1));

    let got = origin.batch(&client, &owned(&["1.1.1.1", "2.2.2.2"]), BatchOptions::new());

    assert_eq!(origin.count(), 2);
    assert_eq!(origin.sleeps, [Duration::from_secs(2)]);
    for (_, answer) in &got {
        let err = answer.as_ref().expect_err("the chunk failed");
        assert_eq!(err.kind(), ErrorKind::ServerError);
        assert_eq!(err.message(), "overloaded");
        assert_eq!(err.status(), Some(503));
        assert_eq!(err.retry_after(), Some(Duration::from_secs(2)));
    }
}

#[test]
fn a_cache_hit_issues_no_second_request() {
    let mut origin = Origin::new().ok(&owned(&["1.1.1.1"]));
    let client = build(builder());
    for _ in 0..2 {
        origin.batch(&client, &owned(&["1.1.1.1"]), BatchOptions::new());
    }
    assert_eq!(origin.count(), 1);

    let again = origin.lookup(&client, "1.1.1.1").expect("lookup");
    assert_eq!(again.ip, "1.1.1.1");
    assert_eq!(origin.count(), 1, "a repeated lookup is free");
}

#[test]
fn a_batch_keeps_what_was_served_and_nothing_else() {
    let mut origin = Origin::new().ok(&owned(&["1.1.1.1"]));
    let client = build(builder());
    let ips = owned(&["10.0.0.1", "1.1.1.1", "not-an-ip"]);
    origin.batch(&client, &ips, BatchOptions::new());
    assert_eq!(origin.cache.iter().map(|(ip, _)| ip.as_str()).collect::<Vec<_>>(), ["1.1.1.1"]);

    let mut origin = Origin::new().ok(&owned(&["1.1.1.1"]));
    let client = build(builder().no_cache());
    origin.batch(&client, &ips, BatchOptions::new());
    assert!(origin.cache.is_empty());
}

#[test]
fn caching_can_be_turned_off() {
    let mut origin = Origin::new().ok(&owned(&["1.1.1.1"]));
    let client = build(builder().no_cache());

    origin.lookup(&client, "1.1.1.1").expect("lookup");
    origin.lookup(&client, "1.1.1.1").expect("lookup");

    assert_eq!(origin.count(), 2);
    assert!(origin.cache.is_empty());
}

#[test]
fn sizing_the_cache_turns_it_back_on() {
    let client = build(builder().no_cache().cache(5, Duration::from_secs(1)));
    assert_eq!(client.cache.expect("a cache").capacity, 5);
}

#[test]
fn a_bogon_never_reaches_the_network() {
    let mut origin = Origin::new();
    let client = build(builder());
    let result = origin.lookup(&client, "192.168.1.1").expect("lookup");
    assert!(result.is_bogon);
    assert!(!result.is_vpn);
    assert_eq!(origin.count(), 0);
    assert!(origin.cache.is_empty());
}

#[test]
fn a_wait_doubles_until_the_retries_run_out() {
    let failure = Error::Network(NetworkFailure { text: "reset".to_owned(), timed_out: false });
    let mut retry = Retry::new(3);
    assert_eq!(retry.failed(&failure), Some(millis(250)));
    assert_eq!(retry.failed(&failure), Some(millis(500)));
    assert_eq!(retry.failed(&failure), Some(millis(1000)));
    assert_eq!(retry.failed(&failure), None);
}

#[test]
fn a_body_that_will_not_decode_is_worth_another_attempt() {
    let mut origin = Origin::new().route("/9.9.9.9", 200, "<html>");
    let client = build(builder().retries(1));
    let err = origin.lookup(&client, "9.9.9.9").expect_err("not JSON");
    assert_eq!(err.kind(), ErrorKind::ServerError);
    assert!(err.message().starts_with("could not decode the response: "), "{}", err.message());
    assert_eq!(origin.count(), 2);
}

fn assert_timed_out(call: &str, err: &Error) {
    assert_eq!(err.kind(), ErrorKind::Network, "{call}: {}", err.to_text());
    assert!(err.retryable(), "{call}: a timeout is worth another attempt");
    assert!(err.message().contains("timed out"), "{call}: {}", err.message());
}

fn vpn_answer(ip: &str) -> LookupResponse {
    read_answer(&format!("{{\"ip\":\"{ip}\",\"is_vpn\":true}}")).expect("a readable answer")
}

/// Boards one address and says what the lookup is told.
fn board_one(flights: &mut Flights, ip: &str) -> (Event, Vec<(String, u64)>) {
    assert!(flights.has_room(1));
    let boarding = flights.board(&vec![ip.to_owned()]);
    (Event::boarded(&boarding), boarding.led)
}

#[test]
fn a_miss_in_flight_is_answered_by_that_request() {
    let client = build(builder());
    let mut flights = Flights::new();

    let (mut first, action) = client.lookup("1.1.1.1");
    assert!(matches!(action, Action::Read));
    assert!(matches!(first.step(Event::Read(None)), Action::Board));
    let (event, led) = board_one(&mut flights, "1.1.1.1");
    assert!(matches!(first.step(event), Action::Read), "the cache is read again");
    assert!(matches!(first.step(Event::Read(None)), Action::Send));

    let (mut second, _) = client.lookup("1.1.1.1");
    assert!(matches!(second.step(Event::Read(None)), Action::Board));
    let (event, none) = board_one(&mut flights, "1.1.1.1");
    assert!(none.is_empty());
    assert!(matches!(second.step(event), Action::Await), "the second sends nothing");

    let stored = match first.step(Event::Answered(Ok(vpn_answer("1.1.1.1")))) {
        Action::Store(lookup) => lookup,
        other => panic!("{other:?}"),
    };
    assert!(stored.is_vpn);
    let landed = match first.step(Event::Stored) {
        Action::Land(outcome) => outcome,
        other => panic!("{other:?}"),
    };
    for (ip, flight) in &led {
        flights.land(ip, *flight);
    }
    match first.step(Event::Landed) {
        Action::Return(Ok(lookup)) => assert!(lookup.is_vpn),
        other => panic!("{other:?}"),
    }
    match second.step(Event::Arrived(Some(landed))) {
        Action::Return(Ok(lookup)) => assert!(lookup.is_vpn),
        other => panic!("{other:?}"),
    }
}

#[test]
fn a_failure_lands_restated_for_whoever_joined() {
    let client = build(builder().retries(0));
    let mut flights = Flights::new();
    let (mut first, _) = client.lookup("1.1.1.1");
    assert!(matches!(first.step(Event::Read(None)), Action::Board));
    let (event, _) = board_one(&mut flights, "1.1.1.1");
    assert!(matches!(first.step(event), Action::Read));
    assert!(matches!(first.step(Event::Read(None)), Action::Send));

    let failure = Error::Network(NetworkFailure { text: "reset".to_owned(), timed_out: false });
    let landed = match first.step(Event::Answered(Err(failure))) {
        Action::Land(Err(err)) => err,
        other => panic!("{other:?}"),
    };
    assert_eq!(landed.kind(), ErrorKind::Network);
    match first.step(Event::Landed) {
        Action::Return(Err(Error::Network(failure))) => assert_eq!(failure.text, "reset"),
        other => panic!("{other:?}"),
    }

    let (mut second, _) = client.lookup("1.1.1.1");
    assert!(matches!(second.step(Event::Read(None)), Action::Board));
    assert!(matches!(second.step(Event::Joined), Action::Await));
    match second.step(Event::Arrived(Some(Err(landed)))) {
        Action::Return(Err(err)) => assert_eq!(err.kind(), ErrorKind::Network),
        other => panic!("{other:?}"),
    }
}

#[test]
fn an_answer_that_landed_since_the_miss_is_found_before_sending() {
    let client = build(builder());
    let (mut call, _) = client.lookup("1.1.1.1");
    assert!(matches!(call.step(Event::Read(None)), Action::Board));
    assert!(matches!(call.step(Event::Led), Action::Read));
    let hit = Lookup::served(vpn_answer("1.1.1.1"));
    match call.step(Event::Read(Some(hit))) {
        Action::Land(Ok(lookup)) => assert!(lookup.is_vpn),
        other => panic!("{other:?}"),
    }
    match call.step(Event::Landed) {
        Action::Return(Ok(lookup)) => assert_eq!(lookup.ip, "1.1.1.1"),
        other => panic!("{other:?}"),
    }
}

#[test]
fn a_given_up_flight_is_tried_again_from_the_cache_on() {
    let client = build(builder());
    let (mut call, _) = client.lookup("1.1.1.1");
    assert!(matches!(call.step(Event::Read(None)), Action::Board));
    assert!(matches!(call.step(Event::Joined), Action::Await));
    assert!(matches!(call.step(Event::Arrived(None)), Action::Read));
    assert!(matches!(call.step(Event::Read(None)), Action::Board));
    assert!(matches!(call.step(Event::Led), Action::Read));
    assert!(matches!(call.step(Event::Read(None)), Action::Send));
}

#[test]
fn a_batch_joins_what_is_in_flight_and_asks_about_the_rest() {
    let client = build(builder());
    let mut flights = Flights::new();
    let (_, led) = board_one(&mut flights, "1.1.1.1");

    let ips = owned(&["1.1.1.1", "8.8.8.8", "10.0.0.1", "9.9.9.9"]);
    let call = client.lookup_batch(&ips, BatchOptions::new()).expect("a batch");
    let plan = call.plan(vec![None, None, None, None]);
    assert_eq!(plan.pending, ["1.1.1.1", "8.8.8.8", "9.9.9.9"]);
    let takeoff = call.board(&mut flights, &plan.pending);
    assert_eq!(takeoff.asked, ["8.8.8.8", "9.9.9.9"]);
    assert_eq!(takeoff.boarding.joined, led, "the flight that was there is joined");

    let hit = Lookup::served(vpn_answer("9.9.9.9"));
    let leading = call.lead(&takeoff.asked, vec![None, Some(hit)]);
    assert_eq!(leading.chunks, [owned(&["8.8.8.8"])], "what was found is not asked about");
    assert_eq!(leading.found.len(), 1);
    assert_eq!(leading.found[0].0, "9.9.9.9");

    let mut landed = leading.found;
    landed.extend(lookup_chunk(
        &leading.chunks[0],
        Ok(BatchAnswer {
            results: vec![("8.8.8.8".to_owned(), vpn_answer("8.8.8.8"))],
            errors: Vec::new(),
        }),
    ));
    assert!(!call.answered(&plan.local, &landed), "the flight it joined has not landed");

    let came = arrivals(vec![("1.1.1.1".to_owned(), None)]);
    assert!(came.landed.is_empty());
    assert_eq!(came.again, ["1.1.1.1"], "a given up flight is tried again");
    let outcome = Ok(Lookup::served(vpn_answer("1.1.1.1")));
    let came = arrivals(vec![("1.1.1.1".to_owned(), Some(outcome))]);
    assert!(came.again.is_empty());
    landed.extend(came.landed);
    assert!(call.answered(&plan.local, &landed));
    let got = call.finish(plan.local, landed);
    assert_eq!(got.keys().collect::<Vec<_>>(), ["1.1.1.1", "8.8.8.8", "10.0.0.1", "9.9.9.9"]);
    assert!(got.values().all(|answer| answer.is_ok()));
}

#[test]
fn a_client_that_keeps_nothing_sends_at_once() {
    let client = build(builder().no_cache());
    let (mut call, action) = client.lookup("1.1.1.1");
    assert!(matches!(action, Action::Send));
    assert!(matches!(
        call.step(Event::Answered(Ok(vpn_answer("1.1.1.1")))),
        Action::Return(Ok(_))
    ));
}

#[test]
fn an_address_is_taken_where_it_was_first_seen() {
    let ips = owned(&["b", "a", "b", "c", "a"]);
    let once = dedupe(&ips);
    assert_eq!(once, ["b", "a", "c"]);
    assert_eq!(dedupe(&once), once);
}

#[test]
fn a_batch_takes_no_more_requests_than_it_must() {
    let client = build(builder().no_cache());
    for (count, requests) in [(0, 0), (1, 1), (999, 1), (1000, 1), (1001, 2), (2000, 2), (2001, 3)]
    {
        let ips: Vec<String> = many_addrs().into_iter().take(count).collect();
        let call = client.lookup_batch(&ips, BatchOptions::new()).expect("a batch");
        let leading = call.lead(call.unique(), ips.iter().map(|_| None).collect());
        assert_eq!(leading.chunks.len(), requests, "{count} addresses");
        assert_eq!(leading.chunks.concat(), ips);
    }
}
