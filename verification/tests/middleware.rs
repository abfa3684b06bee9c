//! Resolving a client address, classifying it, and deciding whether to block.

use serde_json::Value as Parsed;
use vpndetection::client::Client;
use vpndetection::error::NetworkFailure;
use vpndetection::json::{Json, JsonNumber};
use vpndetection::middleware::matching::{condition_constraints, missing_members, validate};
use vpndetection::middleware::{
    framework_ip, from_json, header, xff, Bound, Condition, Core, IpSelector, Lookup,
    OnMissingField, Options, RequestView, Step, Value,
};
use vpndetection::number::Number;
use vpndetection::{Duration, Error, ErrorKind, LookupResponse, ProxyDetail, VpnDetail};

const PUBLIC_IP: &str = "45.83.91.1";

fn number(value: f64) -> Number {
    Number { bits: value.to_bits() }
}

fn convert(raw: &Parsed) -> Json {
    match raw {
        Parsed::Null => Json::Null,
        Parsed::Bool(b) => Json::Bool(*b),
        Parsed::Number(n) => {
            Json::Number(JsonNumber { text: n.to_string(), value: n.as_f64().map(number) })
        }
        Parsed::String(s) => Json::Text(s.clone()),
        Parsed::Array(entries) => Json::Array(entries.iter().map(convert).collect()),
        Parsed::Object(members) => {
            Json::Object(members.iter().map(|(k, v)| (k.clone(), convert(v))).collect())
        }
    }
}

fn json(text: &str) -> Json {
    convert(&serde_json::from_str(text).expect("JSON"))
}

fn request(ip: Option<&str>, headers: &[(&str, &str)]) -> RequestView {
    RequestView {
        headers: headers.iter().map(|(k, v)| ((*k).to_owned(), (*v).to_owned())).collect(),
        framework_ip: ip.map(str::to_owned),
    }
}

fn one(member: &str, value: Value) -> Condition {
    Condition::new().with(member.to_owned(), value)
}

fn vpn_only() -> Vec<Condition> {
    vec![one("is_vpn", Value::from(true))]
}

fn client() -> Client {
    Client::builder().no_cache().retries(0).build().expect("build")
}

fn built(options: Options) -> Core {
    Core::new(options.client(client())).expect("core")
}

fn answer(is_vpn: bool) -> LookupResponse {
    LookupResponse {
        ip: PUBLIC_IP.to_owned(),
        is_vpn,
        is_cdn: None,
        is_dcproxy: None,
        is_hosting: None,
        is_mobproxy: None,
        is_relay: None,
        is_resproxy: None,
        is_tor: None,
        cdn: None,
        dcproxy: None,
        hosting: None,
        mobproxy: None,
        relay: None,
        resproxy: None,
        tor: None,
        vpn: None,
    }
}

/// Evaluates a request against an origin that answers this.
fn evaluate(
    guard: &mut Core,
    view: &RequestView,
    served: Result<LookupResponse, Error>,
) -> (Result<Lookup, String>, Vec<String>) {
    let (step, warning) = guard.evaluate(view);
    let mut warnings: Vec<String> = warning.into_iter().collect();
    let ip = match step {
        Step::Attach(found) => return (Ok(found), warnings),
        Step::LookUp(ip) => ip,
    };
    let outcome = if vpndetection::is_bogon(&ip) {
        Ok(vpndetection::bogon::bogon_lookup(&ip))
    } else {
        served.map(vpndetection::Lookup::served)
    };
    let (found, warning) = guard.conclude(ip, outcome);
    warnings.extend(warning);
    (found.map_err(|e| e.to_text()), warnings)
}

fn failure() -> Error {
    Error::from_response(500, None, None)
}

#[test]
fn enriches_without_blocking_when_no_condition_is_configured() {
    let mut guard = built(Options::new());
    assert!(!guard.blocking());

    let (found, _) = evaluate(&mut guard, &request(Some(PUBLIC_IP), &[]), Ok(answer(true)));

    let found = found.expect("evaluate");
    assert!(!found.blocked);
    assert!(found.result.expect("a result").answer.is_vpn);
    assert_eq!(found.ip.as_deref(), Some(PUBLIC_IP));
}

#[test]
fn a_condition_reaches_the_evidence_fields() {
    for (provider, want) in [("nordvpn", false), ("mullvad", true)] {
        let nested = one("provider", Value::from(provider));
        let mut guard =
            built(Options::new().block_condition(vec![one("vpn", Value::from(nested))]));
        assert!(guard.blocking());
        let mut served = answer(true);
        served.vpn = Some(VpnDetail {
            confidence: None,
            last_seen: None,
            method: None,
            provider: Some("MULLVAD".to_owned()),
        });
        let (found, _) = evaluate(&mut guard, &request(Some(PUBLIC_IP), &[]), Ok(served));
        assert_eq!(found.expect("evaluate").blocked, want, "{provider}");
    }
}

#[test]
fn a_bound_reaches_the_numeric_evidence() {
    let five = number(5.0);
    for (bound, want) in
        [(Bound::gte(five), true), (Bound::gte(five).and_lt(number(7.0)), false)]
    {
        let nested = one("hits", Value::from(bound));
        let mut guard =
            built(Options::new().block_condition(vec![one("resproxy", Value::from(nested))]));
        let mut served = answer(false);
        served.resproxy = Some(ProxyDetail {
            first_seen: None,
            hits: Some(7),
            hits_days_pct: None,
            last_seen: None,
            provider: None,
            providers_num: None,
        });
        let (found, _) = evaluate(&mut guard, &request(Some(PUBLIC_IP), &[]), Ok(served));
        assert_eq!(found.expect("evaluate").blocked, want, "every bound given must hold");
    }
}

#[test]
fn fails_open_on_a_lookup_error_and_closed_only_when_asked() {
    let mut opened = built(Options::new().block_condition(vpn_only()));
    let view = request(Some(PUBLIC_IP), &[]);
    let (found, _) = evaluate(&mut opened, &view, Err(failure()));
    let found = found.expect("evaluate");
    assert!(!found.blocked);
    assert!(found.error.is_some());
    assert!(found.result.is_none());

    let mut closed = built(Options::new().block_condition(vpn_only()).fail_closed(true));
    let (found, _) = evaluate(&mut closed, &view, Err(failure()));
    assert!(found.expect("evaluate").blocked);
}

#[test]
fn nothing_is_blocked_without_a_condition() {
    let mut guard = built(Options::new().fail_closed(true));
    assert!(!guard.blocking());
    let view = request(Some(PUBLIC_IP), &[]);
    let (found, _) = evaluate(&mut guard, &view, Err(failure()));
    let found = found.expect("evaluate");
    assert!(found.error.is_some());
    assert!(!found.blocked, "a failed lookup blocked a request");

    let (found, _) = evaluate(&mut guard, &request(None, &[]), Err(failure()));
    let found = found.expect("evaluate");
    assert!(found.error.is_some());
    assert!(!found.blocked, "a missing address blocked a request");

    let (found, _) = evaluate(&mut guard, &view, Ok(answer(true)));
    assert!(!found.expect("evaluate").blocked);
}

#[test]
fn a_guard_that_fails_closed_blocks_what_it_could_not_classify() {
    let mut guard = built(Options::new().block_condition(vpn_only()).fail_closed(true));
    let (found, _) = evaluate(&mut guard, &request(None, &[]), Err(failure()));
    assert!(found.expect("evaluate").blocked);
    let (found, _) = evaluate(&mut guard, &request(Some(PUBLIC_IP), &[]), Ok(answer(false)));
    assert!(!found.expect("evaluate").blocked, "what was classified is decided by the condition");
}

#[test]
fn a_private_client_address_warns_once_and_never_reaches_the_network() {
    let mut guard = built(Options::new().block_condition(vpn_only()));
    let mut seen = Vec::new();
    for _ in 0..2 {
        let (found, warnings) =
            evaluate(&mut guard, &request(Some("10.0.0.7"), &[]), Err(failure()));
        let found = found.expect("evaluate");
        assert!(!found.blocked, "local development must not lock you out of your own app");
        assert!(found.result.expect("a result").is_bogon);
        seen.extend(warnings);
    }
    assert_eq!(seen.len(), 1, "a misconfiguration is the same on every request");
    assert!(seen[0].contains("not a public address"));
}

#[test]
fn a_missing_member_warns_once_or_fails_on_request() {
    let hosting = || vec![one("is_hosting", Value::from(true))];
    let view = request(Some(PUBLIC_IP), &[]);
    let mut warned = built(Options::new().block_condition(hosting()));
    let mut reported = Vec::new();
    for _ in 0..2 {
        let (found, warnings) = evaluate(&mut warned, &view, Ok(answer(true)));
        assert!(!found.expect("evaluate").blocked);
        reported.extend(warnings);
    }
    assert_eq!(reported.len(), 1);
    assert!(reported[0].contains("is_hosting"));
    assert!(reported[0].contains("does not include"));

    let fail = Options::new().block_condition(hosting()).on_missing_field(OnMissingField::Fail);
    let (found, _) = evaluate(&mut built(fail), &view, Ok(answer(true)));
    assert!(found.is_err());

    let ignore =
        Options::new().block_condition(hosting()).on_missing_field(OnMissingField::Ignore);
    let (found, warnings) = evaluate(&mut built(ignore), &view, Ok(answer(true)));
    assert!(!found.expect("evaluate").blocked);
    assert!(warnings.is_empty());
}

#[test]
fn an_unresolvable_address_warns_and_does_not_block() {
    for ip in [None, Some("  ")] {
        let mut guard = built(Options::new().block_condition(vpn_only()));
        let (found, seen) = evaluate(&mut guard, &request(ip, &[]), Err(failure()));
        let found = found.expect("evaluate");
        assert!(!found.blocked);
        assert_eq!(found.ip, None);
        let err = found.error.expect("an error");
        assert_eq!(err.to_text(), "vpndetection: no client address on the request");
        assert!(seen[0].contains("could not resolve a client address"));
    }
}

#[test]
fn an_address_loses_the_space_around_it() {
    let mut guard = built(Options::new());
    let (found, _) = evaluate(&mut guard, &request(Some(" 45.83.91.1\t"), &[]), Ok(answer(true)));
    assert_eq!(found.expect("evaluate").ip.as_deref(), Some(PUBLIC_IP));
}

fn picked(selector: IpSelector, view: &RequestView) -> Option<String> {
    selector.select(view)
}

#[test]
fn selectors_read_what_they_say_they_read() {
    let chained = request(
        Some("10.0.0.1"),
        &[("X-Forwarded-For", "203.0.113.9, 70.41.3.18, 150.172.238.178")],
    );
    assert_eq!(picked(framework_ip(), &chained).as_deref(), Some("10.0.0.1"));
    assert_eq!(picked(xff(0), &chained).as_deref(), Some("203.0.113.9"));
    assert_eq!(picked(xff(1), &chained).as_deref(), Some("150.172.238.178"));
    assert_eq!(picked(xff(2), &chained).as_deref(), Some("70.41.3.18"));
    // Past the chain's length the depth is meaningless, so this falls back to the
    // left-most rather than indexing off the end.
    assert_eq!(picked(xff(9), &chained).as_deref(), Some("203.0.113.9"));
    let cloudflare = || header("CF-Connecting-IP".to_owned());
    assert_eq!(picked(cloudflare(), &chained).as_deref(), Some("10.0.0.1"));

    let direct = request(Some("10.0.0.1"), &[("CF-Connecting-IP", "198.51.100.4")]);
    assert_eq!(picked(cloudflare(), &direct).as_deref(), Some("198.51.100.4"));
    assert_eq!(picked(xff(0), &request(Some("10.0.0.1"), &[])).as_deref(), Some("10.0.0.1"));
}

#[test]
fn a_depth_ignores_what_a_visitor_sent() {
    for forged in ["", "1.2.3.4, ", "1.2.3.4,5.6.7.8 ,"] {
        let chain = format!("{forged}70.41.3.18, 150.172.238.178");
        let view = request(None, &[("x-forwarded-for", &chain)]);
        assert_eq!(picked(xff(1), &view).as_deref(), Some("150.172.238.178"), "{chain}");
        assert_eq!(picked(xff(2), &view).as_deref(), Some("70.41.3.18"), "{chain}");
    }
    let blank = request(Some("10.0.0.1"), &[("x-forwarded-for", " , ,")]);
    assert_eq!(picked(xff(1), &blank).as_deref(), Some("10.0.0.1"));
}

#[test]
fn a_condition_read_from_json_is_the_one_written_in_rust() {
    let confidence = vec![Value::from("high"), Value::from("medium")];
    let hits = Bound::gte(number(5.0)).and_lt(number(100.0));
    let written = vec![
        Condition::new()
            .with("is_vpn".to_owned(), Value::from(true))
            .with("vpn".to_owned(), Value::from(one("confidence", Value::from(confidence)))),
        one("resproxy", Value::from(one("hits", Value::from(hits)))),
    ];
    let read = from_json(&json(
        r#"[
        { "is_vpn": true, "vpn": { "confidence": ["high", "medium"] } },
        { "resproxy": { "hits": { "gte": 5, "lt": 100 } } }
    ]"#,
    ))
    .expect("a readable condition");

    assert_eq!(read, written);
}

#[test]
fn a_condition_that_is_not_an_object_is_refused_rather_than_ignored() {
    assert!(from_json(&json(r#""is_vpn""#)).is_err());
    assert!(from_json(&json(r#"[{ "is_vpn": true }, 7]"#)).is_err());
}

#[test]
fn a_refused_condition_is_quoted_back() {
    let refused = |text: &str| from_json(&json(text)).expect_err("unreadable").to_text();
    assert_eq!(
        refused(r#""is_\"vpn\u0007""#),
        r#"vpndetection: a condition must be an object, got "is_\"vpn\u0007""#
    );
    assert_eq!(refused("7"), "vpndetection: a condition must be an object, got 7");
    assert_eq!(
        refused(r#"{"resproxy":{"hits":{"gte":"5"}}}"#),
        r#"vpndetection: bound gte must be a number, got "5""#
    );
    assert_eq!(
        refused(r#"[[{"a":[1,null,true]}]]"#),
        r#"vpndetection: a condition must be an object, got [{"a":[1,null,true]}]"#
    );
}

#[test]
fn a_number_too_large_to_hold_is_refused() {
    let huge = Json::Number(JsonNumber { text: "1e999".to_owned(), value: None });
    let raw = Json::Object(vec![("hits".to_owned(), huge)]);
    let err = from_json(&raw).expect_err("unreadable");
    assert_eq!(err.to_text(), "vpndetection: 1e999 is not a finite number");
}

#[test]
fn an_object_of_bounds_is_a_bound_and_any_other_a_condition() {
    let read = from_json(&json(r#"{"a":{"gt":1,"lte":2},"b":{"gt":1,"x":2},"c":{}}"#))
        .expect("a readable condition");
    let bound = Bound::gt(number(1.0)).and_lte(number(2.0));
    let nested = Condition::new()
        .with("x".to_owned(), Value::from(2))
        .with("gt".to_owned(), Value::from(1));
    let written = Condition::new()
        .with("a".to_owned(), Value::from(bound))
        .with("b".to_owned(), Value::from(nested))
        .with("c".to_owned(), Value::from(Condition::new()));
    assert_eq!(read, vec![written]);
}

#[test]
fn corpus_refuses_a_condition_that_constrains_nothing() {
    for text in [
        "{}",
        r#"{"is_vpn":false}"#,
        r#"{"is_vpn":null,"is_tor":false}"#,
        r#"{"vpn":{"provider":null}}"#,
        r#"{"vpn":{}}"#,
        r#"{"vpn":{"provider":[]}}"#,
        r#"[{"is_vpn":true},{"is_tor":false}]"#,
    ] {
        let condition = from_json(&json(text)).expect("a readable condition");
        match Core::new(Options::new().block_condition(condition)) {
            Err(error) => {
                assert!(error.to_text().contains("constrains nothing"), "{text}");
                assert_eq!(error.kind(), ErrorKind::BadRequest);
            }
            Ok(_) => panic!("{text}: accepted a condition that constrains nothing"),
        }
    }
}

#[test]
fn a_condition_that_constrains_nothing_is_shown_as_it_was_written() {
    let text = r#"{"is_vpn":false,"vpn":{"pro\"vider":[null,false],"hits":{}}}"#;
    let condition = from_json(&json(text)).expect("a readable condition");
    let error = match Core::new(Options::new().block_condition(condition)) {
        Err(error) => error,
        Ok(_) => panic!("accepted"),
    };
    assert_eq!(
        error.message(),
        "vpndetection: block condition Condition({\"is_vpn\": Bool(false), \"vpn\": \
         Nested(Condition({\"hits\": Nested(Condition({})), \"pro\\\"vider\": \
         AnyOf([Null, Bool(false)])}))}) constrains nothing, which would block every request; \
         a member set to false or null is ignored, so state the positive signals you act on"
    );
}

#[test]
fn no_conditions_at_all_are_accepted_and_block_nobody() {
    let mut guard = built(Options::new().block_condition(Vec::new()));
    assert!(guard.blocking());
    let (found, _) = evaluate(&mut guard, &request(Some(PUBLIC_IP), &[]), Ok(answer(true)));
    assert!(!found.expect("evaluate").blocked);
}

fn blocks(condition: &str, served: &str) -> bool {
    let conditions = from_json(&json(condition)).expect("a readable condition");
    vpndetection::middleware::matching::matches(&conditions, &json(served))
}

#[test]
fn terms_are_and_and_a_list_of_conditions_is_or() {
    let served = r#"{"ip":"1.1.1.1","is_vpn":true,"is_tor":false}"#;
    assert!(blocks(r#"{"is_vpn":true}"#, served));
    assert!(!blocks(r#"{"is_vpn":true,"is_tor":true}"#, served));
    assert!(blocks(r#"[{"is_tor":true},{"is_vpn":true}]"#, served));
    assert!(!blocks("[]", served));
}

#[test]
fn false_and_null_are_ignored() {
    let served = r#"{"is_vpn":true,"is_tor":true}"#;
    assert!(blocks(r#"{"is_vpn":true,"is_tor":false}"#, served));
    assert!(blocks(r#"{"is_vpn":true,"is_cdn":null}"#, served));
}

#[test]
fn a_served_false_is_never_matched() {
    let served = r#"{"ip":"1.1.1.1","is_vpn":false}"#;
    assert!(!blocks(r#"{"is_vpn":[true,false]}"#, served));
    assert!(!blocks(r#"{"is_vpn":[true,[false]]}"#, served));
    assert!(!blocks(r#"{"is_vpn":[true,null]}"#, served));
    assert!(!blocks(r#"{"is_vpn":[7,"x",{"gte":0},{"a":true}]}"#, served));
    assert!(blocks(r#"{"is_vpn":[true,false]}"#, r#"{"ip":"1.1.1.1","is_vpn":true}"#));
    assert!(blocks(r#"{"is_tor":[false,null],"is_vpn":true}"#, r#"{"is_vpn":true}"#));
}

#[test]
fn an_empty_condition_within_a_list_takes_whatever_is_served() {
    let open = r#"{"vpn":[{},{"provider":"x"}]}"#;
    assert!(blocks(open, r#"{"vpn":{"provider":"y"}}"#));
    assert!(blocks(open, r#"{"vpn":false}"#));
    assert!(!blocks(open, r#"{"is_vpn":true}"#), "an absent member matches nothing");
    assert!(blocks(r#"{"vpn":[{"provider":false},{"provider":"x"}]}"#, r#"{"vpn":{}}"#));
    assert!(blocks(r#"{"is_vpn":[true,[{}]]}"#, r#"{"is_vpn":false}"#));

    let bound = Value::AnyOf(vec![Value::Bound(Bound::default()), Value::from(true)]);
    let any_number = vec![one("hits", bound)];
    let hits = |served: &str| {
        vpndetection::middleware::matching::matches(&any_number, &json(served))
    };
    assert!(hits(r#"{"hits":-1}"#));
    assert!(hits(r#"{"hits":true}"#));
    assert!(!hits(r#"{"hits":false}"#));
    assert!(!hits(r#"{"hits":"7"}"#));
}

#[test]
fn a_condition_of_terms_is_the_one_set_term_by_term() {
    let terms = vec![
        ("is_vpn".to_owned(), Value::from(true)),
        ("vpn".to_owned(), Value::from("x")),
        ("is_vpn".to_owned(), Value::from(false)),
    ];
    let all = Condition::from_terms(terms);
    let set = one("is_vpn", Value::from(true))
        .with("vpn".to_owned(), Value::from("x"))
        .with("is_vpn".to_owned(), Value::from(false));
    assert!(all == set);
    assert_eq!(condition_constraints(&all), 1, "the later of two values stands");
    assert!(Condition::from_terms(Vec::new()) == Condition::new());
}

#[test]
fn a_clone_is_the_condition_it_was_made_of() {
    let text = r#"{"a":[true,"x",7,null,{"b":{"gte":1}}],"c":{"d":"e"},"f":false}"#;
    let read = from_json(&json(text)).expect("a readable condition");
    assert!(read[0].clone() == read[0]);
    assert_eq!(condition_constraints(&read[0].clone()), 5);
    let value = Value::AnyOf(vec![Value::from("x"), Value::Null]);
    assert_eq!(value.clone(), value);
}

#[test]
fn an_unserved_member_never_matches() {
    assert!(!blocks(r#"{"is_hosting":true}"#, r#"{"is_vpn":true}"#));
    assert!(!blocks(r#"{"vpn":{"provider":"x"}}"#, r#"{"is_vpn":true}"#));
    assert!(!blocks(r#"{"vpn":{"provider":"x"}}"#, r#"{"vpn":{}}"#));
    assert!(!blocks(r#"{"hits":{"gte":0}}"#, r#"{}"#));
    assert!(!blocks(r#"{"hits":[1,2]}"#, r#"{}"#));
    assert!(!blocks(r#"{"is_vpn":true}"#, "null"));
}

#[test]
fn a_list_within_a_term_is_any_of() {
    let condition = r#"{"vpn":{"confidence":["high","medium"]}}"#;
    assert!(blocks(condition, r#"{"vpn":{"confidence":"medium"}}"#));
    assert!(!blocks(condition, r#"{"vpn":{"confidence":"low"}}"#));
    assert!(blocks(r#"{"a":[true,7,{"b":"c"}]}"#, r#"{"a":7.0}"#));
    assert!(blocks(r#"{"a":[true,7,{"b":"c"}]}"#, r#"{"a":{"b":"C"}}"#));
}

#[test]
fn a_text_compares_without_ascii_case_only() {
    assert!(blocks(r#"{"p":"NordVPN"}"#, r#"{"p":"nordvpn"}"#));
    assert!(!blocks(r#"{"p":"é"}"#, r#"{"p":"É"}"#));
    assert!(!blocks(r#"{"p":"1"}"#, r#"{"p":1}"#));
    assert!(!blocks(r#"{"p":true}"#, r#"{"p":"true"}"#));
}

#[test]
fn bounds_are_inclusive_or_strict_as_they_say() {
    for (bound, below, at, above) in [
        (r#"{"gte":5}"#, false, true, true),
        (r#"{"gt":5}"#, false, false, true),
        (r#"{"lte":5}"#, true, true, false),
        (r#"{"lt":5}"#, true, false, false),
    ] {
        let condition = format!("{{\"n\":{bound}}}");
        for (value, want) in [("4.5", below), ("5", at), ("5.25", above)] {
            let served = format!("{{\"n\":{value}}}");
            assert_eq!(blocks(&condition, &served), want, "{condition} on {served}");
        }
    }
    assert!(!blocks(r#"{"n":{"gte":5}}"#, r#"{"n":"9"}"#));
}

#[test]
fn missing_members_are_named_once_and_only_when_constrained() {
    let conditions = from_json(&json(
        r#"[{"is_tor":true,"is_cdn":false,"vpn":{"provider":"x"}},{"is_tor":true,"is_vpn":true}]"#,
    ))
    .expect("a readable condition");
    let served = json(r#"{"is_vpn":true,"vpn":{}}"#);
    assert_eq!(missing_members(&conditions, &served), ["is_tor"]);
    assert_eq!(missing_members(&conditions, &json("{}")), ["is_tor", "vpn", "is_vpn"]);
}

#[test]
fn every_leaf_is_counted() {
    let conditions = from_json(&json(
        r#"{"a":true,"b":false,"c":[1,2,null],"d":{"e":{"gte":1,"lt":2},"f":"x"},"g":{}}"#,
    ))
    .expect("a readable condition");
    assert_eq!(condition_constraints(&conditions[0]), 5);
    assert!(validate(&conditions).is_ok());
    let empty = Bound::default();
    assert!(empty.is_empty());
    assert_eq!(condition_constraints(&one("a", Value::from(empty))), 0);
}

#[test]
fn setting_a_member_twice_keeps_its_place_and_its_last_value() {
    let twice = Condition::new()
        .with("a".to_owned(), Value::from(1u8))
        .with("b".to_owned(), Value::from(Some(Value::from("x".to_owned()))))
        .with("a".to_owned(), Value::from(None::<Value>));
    let conditions = vec![twice];
    assert_eq!(condition_constraints(&conditions[0]), 1);
    assert_eq!(missing_members(&conditions, &json("{}")), ["b"]);
    assert!(vpndetection::middleware::matching::matches(&conditions, &json(r#"{"b":"X"}"#)));
}

#[test]
fn every_number_becomes_the_same_value() {
    for value in [
        Value::from(7i8),
        Value::from(7i16),
        Value::from(7i32),
        Value::from(7u8),
        Value::from(7u16),
        Value::from(7u32),
        Value::from(number(7.0)),
    ] {
        assert_eq!(value, Value::Number(number(7.0)));
    }
    assert_eq!(Value::from(-3i32), Value::Number(number(-3.0)));
    assert_eq!(Value::from(u32::MAX), Value::Number(number(4294967295.0)));
}

#[test]
fn a_built_client_takes_what_the_options_say() {
    let options = Options::new()
        .api_key("key".to_owned())
        .base_url("https://api.example.test/".to_owned())
        .timeout(Duration::from_millis(700))
        .retries(4)
        .ip_selector(xff(1));
    let guard = Core::new(options).expect("core");
    assert_eq!(guard.client.transport.api_key.as_deref(), Some("key"));
    assert_eq!(guard.client.transport.base_url, "https://api.example.test");
    assert_eq!(guard.client.timeout, Duration::from_millis(700));
    assert_eq!(guard.client.retries, 4);

    let quick = Core::new(Options::new()).expect("core");
    assert_eq!(quick.client.timeout, Duration::from_millis(2500));
    assert_eq!(quick.client.retries, 0);

    assert!(Core::new(Options::new().base_url("/relative".to_owned())).is_err());
}

#[test]
fn no_time_at_all_still_builds() {
    let none = Duration::from_millis(0);
    let guard = Core::new(Options::new().timeout(none)).expect("core");
    assert_eq!(guard.client.timeout, none);
    let held = Core::new(Options::new().timeout(none).client(client())).expect("core");
    assert_eq!(held.client.timeout, client().timeout, "a client that is given keeps its own");
}

#[test]
fn a_failure_is_attached_as_it_was() {
    let mut guard = built(Options::new());
    let failure = Error::Network(NetworkFailure { text: "reset".to_owned(), timed_out: false });
    let (found, _) = evaluate(&mut guard, &request(Some(PUBLIC_IP), &[]), Err(failure));
    let found = found.expect("evaluate");
    assert_eq!(found.ip.as_deref(), Some(PUBLIC_IP));
    assert_eq!(found.error.expect("an error").message(), "reset");
}
