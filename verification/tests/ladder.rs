//! The plan tiers a run can observe, and the shape rules that hold on each.

use serde_json::Value as Parsed;
use vpndetection::integration::{
    assert_served_by_tier, assert_shape, client_fields, client_for, ladder_skip, look_up,
    max_rung, members, observable, rungs, Answer, Environment, PROBE, STAGING,
};
use vpndetection::json::{Json, JsonNumber};
use vpndetection::number::Number;
use vpndetection::{Lookup, LookupResponse, VpnDetail};

fn environment(variables: &[(&str, &str)]) -> Environment {
    Environment {
        variables: variables.iter().map(|(k, v)| ((*k).to_owned(), (*v).to_owned())).collect(),
    }
}

fn convert(raw: &Parsed) -> Json {
    match raw {
        Parsed::Null => Json::Null,
        Parsed::Bool(b) => Json::Bool(*b),
        Parsed::Number(n) => {
            let value = n.as_f64().map(|f| Number { bits: f.to_bits() });
            Json::Number(JsonNumber { text: n.to_string(), value })
        }
        Parsed::String(s) => Json::Text(s.clone()),
        Parsed::Array(entries) => Json::Array(entries.iter().map(convert).collect()),
        Parsed::Object(fields) => {
            Json::Object(fields.iter().map(|(k, v)| (k.clone(), convert(v))).collect())
        }
    }
}

fn json(text: &str) -> Json {
    convert(&serde_json::from_str(text).expect("JSON"))
}

fn served(is_vpn: bool) -> Lookup {
    Lookup::served(LookupResponse {
        ip: PROBE.to_owned(),
        is_vpn,
        is_cdn: None,
        is_dcproxy: None,
        is_hosting: None,
        is_mobproxy: None,
        is_relay: None,
        is_resproxy: None,
        is_tor: None,
        cdn: None,
        dcproxy: None,
        hosting: None,
        mobproxy: None,
        relay: None,
        resproxy: None,
        tor: None,
        vpn: None,
    })
}

fn answer(wire: &str) -> Answer {
    Answer {
        tier: "max",
        widens: true,
        result: served(true),
        wire: json(wire),
        facts: Vec::new(),
    }
}

fn fault(wire: &str) -> String {
    assert_shape(&answer(wire)).expect_err("a fault")
}

#[test]
fn the_ladder_ascends() {
    let tiers: Vec<&str> = rungs().iter().map(|r| r.tier).collect();
    assert_eq!(tiers, ["unauth", "free", "starter", "scale", "max"]);
    let widens: Vec<bool> = rungs().iter().map(|r| r.widens).collect();
    assert_eq!(widens, [false, false, true, true, true]);
    assert_eq!(max_rung().tier, "max");
    assert_eq!(STAGING, "https://api-staging.vpndetection.io");
}

#[test]
fn an_empty_key_counts_as_absent() {
    let starter = rungs()[2];
    for value in ["", "  "] {
        let env = environment(&[("VPNDETECTION_STAGING_KEY_STARTER", value)]);
        assert_eq!(starter.key(&env), None);
        assert_eq!(
            starter.skip_reason(&env).as_deref(),
            Some(
                "VPNDETECTION_STAGING_KEY_STARTER is not set, so the starter tier cannot be \
                 exercised"
            )
        );
    }
    let env = environment(&[("VPNDETECTION_STAGING_KEY_STARTER", " k ")]);
    assert_eq!(starter.key(&env).as_deref(), Some("k"));
    assert_eq!(starter.skip_reason(&env), None);
    let unauth = rungs()[0];
    assert_eq!(unauth.key(&env), None);
    assert_eq!(unauth.skip_reason(&env), None);
}

#[test]
fn a_ladder_needs_one_key() {
    let none = environment(&[("UNRELATED", "k")]);
    assert_eq!(observable(&none).len(), 1);
    assert_eq!(
        ladder_skip(&none).as_deref(),
        Some("no tier secret is set, so there is no ladder to compare")
    );
    let some = environment(&[
        ("VPNDETECTION_STAGING_KEY_MAX", "m"),
        ("VPNDETECTION_STAGING_KEY_FREE", "f"),
    ]);
    let tiers: Vec<&str> = observable(&some).iter().map(|r| r.tier).collect();
    assert_eq!(tiers, ["unauth", "free", "max"]);
    assert_eq!(ladder_skip(&some), None);
}

#[test]
fn each_tier_has_a_client_of_its_own() {
    let env = environment(&[("VPNDETECTION_STAGING_KEY_MAX", "m")]);
    let base = "http://127.0.0.1:8080".to_owned();
    let client = client_for(&max_rung(), &env, base.clone()).build().expect("build");
    assert_eq!(client.transport.api_key.as_deref(), Some("m"));
    assert_eq!(client.transport.base_url, base);
    let free = client_for(&rungs()[1], &env, base).build().expect("build");
    assert_eq!(free.transport.api_key, None);
}

#[test]
fn a_tier_whose_key_never_travelled_is_refused() {
    let wire = || Some(json(r#"{"ip":"45.83.91.1","is_vpn":true}"#));
    let max = max_rung();
    let seen = look_up(&max, served(true), wire(), true, Vec::new()).expect("an answer");
    assert_eq!((seen.tier, seen.widens), ("max", true));
    assert!(assert_served_by_tier(&seen).is_ok());

    let refused = |wire, carried| look_up(&max, served(true), wire, carried, Vec::new());
    assert_eq!(
        refused(wire(), false).expect_err("no key"),
        "max: the key never reached the wire"
    );
    assert_eq!(
        refused(None, true).expect_err("no answer"),
        "max: no JSON answer was captured for 45.83.91.1"
    );
    assert_eq!(
        refused(Some(json("[]")), true).expect_err("no object"),
        "max: the answer is a JSON object"
    );
    assert!(look_up(&rungs()[0], served(true), wire(), false, Vec::new()).is_ok());
}

#[test]
fn a_served_answer_is_about_the_address_asked() {
    let wire = r#"{"ip":"45.83.91.1","is_vpn":true}"#;
    let mut wrong = answer(wire);
    wrong.result.answer.ip = "1.1.1.1".to_owned();
    assert_eq!(
        assert_served_by_tier(&wrong).expect_err("a fault"),
        "max: answered about the wrong address"
    );
    let mut local = answer(wire);
    local.result.is_bogon = true;
    assert_eq!(
        assert_served_by_tier(&local).expect_err("a fault"),
        "max: a served answer is not a local one"
    );
}

#[test]
fn presence_is_the_plan_and_the_value_is_the_answer() {
    let vpn = r#"{"ip":"x","is_vpn":true,"vpn":{"provider":"m","last_seen":"t","method":"x"}}"#;
    for wire in [
        r#"{"ip":"x","is_vpn":true}"#,
        r#"{"ip":"x","is_vpn":true,"is_tor":false,"tor":{}}"#,
        vpn,
    ] {
        assert_eq!(assert_shape(&answer(wire)), Ok(()), "{wire}");
    }
    for (wire, what) in [
        (r#"{"is_vpn":true}"#, "ip is not a string"),
        (r#"{"ip":7,"is_vpn":true}"#, "ip is not a string"),
        (r#"{"ip":"x"}"#, "is_vpn is on every plan"),
        (r#"{"ip":"x","is_vpn":1}"#, "is_vpn is on every plan"),
        (r#"{"ip":"x","is_vpn":false}"#, "is_vpn disagrees with the wire"),
        (
            r#"{"ip":"x","is_vpn":true,"is_tor":null}"#,
            "is_tor is present, so it must be a real boolean",
        ),
        (r#"{"ip":"x","is_vpn":true,"cdn":{}}"#, "cdn is served without is_cdn"),
        (
            r#"{"ip":"x","is_vpn":true,"is_cdn":true,"cdn":{}}"#,
            "cdn is empty, so is_cdn is false",
        ),
        (
            r#"{"ip":"x","is_vpn":true,"is_cdn":true,"cdn":[1,"a"]}"#,
            "cdn must be an object when present, got [1,\"a\"]",
        ),
        (
            r#"{"ip":"x","is_vpn":true,"vpn":{"provider":"m"}}"#,
            "vpn is populated but carries no last_seen",
        ),
        (
            r#"{"ip":"x","is_vpn":true,"vpn":{"provider":"m","last_seen":"t","zone":1}}"#,
            "vpn.zone is not a documented key of this detail object",
        ),
    ] {
        assert_eq!(fault(wire), format!("max: {what}"), "{wire}");
    }
}

#[test]
fn every_dataset_is_documented() {
    let names: Vec<&str> = members().iter().map(|(name, _)| *name).collect();
    assert_eq!(
        names,
        ["vpn", "hosting", "relay", "tor", "cdn", "resproxy", "dcproxy", "mobproxy"]
    );
    for (name, detail) in members() {
        let want = match name {
            "vpn" => (2, 2),
            "resproxy" | "dcproxy" | "mobproxy" => (6, 0),
            _ => (3, 0),
        };
        assert_eq!((detail.required.len(), detail.optional.len()), want, "{name}");
    }
}

#[test]
fn the_fields_a_client_holds_are_named_as_served() {
    let mut result = served(true);
    assert_eq!(client_fields(&result), ["ip", "is_vpn"]);
    result.answer.is_tor = Some(false);
    result.answer.vpn = Some(VpnDetail::empty());
    result.answer.is_cdn = Some(true);
    assert_eq!(client_fields(&result), ["ip", "is_cdn", "is_tor", "is_vpn", "vpn"]);
}
