//! Answers as they stand on the wire, and the values they are made of.

use vpndetection::json::{render, Json, JsonNumber};
use vpndetection::number::Number;
use vpndetection::text;
use vpndetection::{ClassDetail, Duration, Lookup, LookupResponse, ProxyDetail, VpnDetail};

fn number(value: f64) -> Number {
    Number { bits: value.to_bits() }
}

fn free() -> LookupResponse {
    LookupResponse {
        ip: "1.1.1.1".to_owned(),
        is_vpn: false,
        is_cdn: None,
        is_dcproxy: None,
        is_hosting: None,
        is_mobproxy: None,
        is_relay: None,
        is_resproxy: None,
        is_tor: None,
        cdn: None,
        dcproxy: None,
        hosting: None,
        mobproxy: None,
        relay: None,
        resproxy: None,
        tor: None,
        vpn: None,
    }
}

#[test]
fn an_absent_member_is_left_off_the_wire() {
    let wire = free().wire();
    assert!(wire.get("is_hosting").is_none());
    assert!(wire.get("vpn").is_none());
    assert!(matches!(wire.get("is_vpn"), Some(Json::Bool(false))));
    match wire {
        Json::Object(members) => assert_eq!(members.len(), 2),
        other => panic!("{other:?}"),
    }
}

#[test]
fn a_present_member_is_on_the_wire_as_it_is() {
    let mut answer = free();
    answer.is_hosting = Some(false);
    answer.hosting = Some(ClassDetail::empty());
    answer.vpn = Some(VpnDetail {
        confidence: Some("high".to_owned()),
        last_seen: None,
        method: None,
        provider: Some(String::new()),
    });
    answer.resproxy = Some(ProxyDetail {
        first_seen: None,
        hits: Some(-7),
        hits_days_pct: Some(JsonNumber { text: "0.5".to_owned(), value: Some(number(0.5)) }),
        last_seen: None,
        provider: None,
        providers_num: Some(3),
    });
    let wire = answer.wire();
    assert!(matches!(wire.get("is_hosting"), Some(Json::Bool(false))));
    assert_eq!(render(wire.get("hosting").expect("hosting")), "{}");
    assert_eq!(render(wire.get("vpn").expect("vpn")), r#"{"confidence":"high","provider":""}"#);
    assert_eq!(
        render(wire.get("resproxy").expect("resproxy")),
        r#"{"hits":-7,"hits_days_pct":0.5,"providers_num":3}"#
    );
    match wire.get("resproxy").and_then(|o| o.get("hits")) {
        Some(Json::Number(hits)) => assert_eq!(hits.value, Some(number(-7.0))),
        other => panic!("{other:?}"),
    }
}

#[test]
fn a_served_answer_is_not_local() {
    let lookup = Lookup::served(free());
    assert!(!lookup.is_bogon);
    assert_eq!(lookup.answer, free());
    assert_eq!(lookup.clone(), lookup);
}

#[test]
fn json_is_written_compactly() {
    let value = Json::Object(vec![
        ("a".to_owned(), Json::Array(vec![Json::Null, Json::Bool(true), Json::Array(vec![])])),
        ("b\"".to_owned(), Json::Text("\\\n\t\r\u{8}\u{c}\u{1f}\u{7f}\u{e9}/".to_owned())),
        ("c".to_owned(), Json::Number(JsonNumber { text: "-1.5e3".to_owned(), value: None })),
    ]);
    assert_eq!(
        render(&value),
        "{\"a\":[null,true,[]],\"b\\\"\":\"\\\\\\n\\t\\r\\b\\f\\u001f\u{7f}\u{e9}/\",\"c\":-1.5e3}"
    );
    assert!(value.get("missing").is_none());
    assert!(Json::Null.get("a").is_none());
}

#[test]
fn numbers_compare_as_doubles_do() {
    let values = [
        f64::NEG_INFINITY,
        -1.5,
        -f64::MIN_POSITIVE,
        -0.0,
        0.0,
        5e-324,
        1.0,
        1.5,
        9007199254740991.0,
        f64::MAX,
        f64::INFINITY,
        f64::NAN,
    ];
    for a in values {
        for b in values {
            let (x, y) = (number(a), number(b));
            assert_eq!(x.at_least(&y), a >= b, "{a} >= {b}");
            assert_eq!(x.above(&y), a > b, "{a} > {b}");
            assert_eq!(x.same(&y), a == b, "{a} == {b}");
        }
    }
}

#[test]
fn an_integer_is_the_double_of_its_value() {
    for n in [0i64, 1, -1, 2, 3, 7, -7, 100, 255, 1 << 40, (1 << 53) - 1, -(1 << 53) + 1] {
        assert_eq!(Number::from_integer(n).bits, (n as f64).to_bits(), "{n}");
    }
}

#[test]
fn durations_count_nanoseconds() {
    let d = Duration::from_millis(1250);
    assert_eq!((d.as_secs(), d.subsec_nanos()), (1, 250_000_000));
    assert_eq!(d.plus(&Duration::from_millis(750)), Duration::from_secs(2));
    assert_eq!(d.minus(&Duration::from_millis(300)), Duration::from_millis(950));
    assert_eq!(d.minus(&Duration::from_secs(9)), Duration::zero());
    assert!(d.at_least(&Duration::from_secs(1)));
    assert!(!d.at_least(&Duration::from_millis(1251)));
    assert!(Duration::new(0, 0).is_zero());
}

#[test]
fn texts_are_cut_where_they_say() {
    assert_eq!(text::trim("\u{a0} a b\u{3000}\n"), "a b");
    assert_eq!(text::trim_end_slashes("a//b//"), "a//b");
    assert_eq!(text::split("a,,b", ','), ["a", "", "b"]);
    assert_eq!(text::split("", ','), [""]);
    assert_eq!(text::split_once("a://b://c", "://"), Some(("a".into(), "b://c".into())));
    assert_eq!(text::split_once("abc", "://"), None);
    assert_eq!(text::strip_prefix("/__via/ab", "/__via/").as_deref(), Some("ab"));
    assert_eq!(text::strip_prefix("/x", "/__via/"), None);
    assert_eq!(text::split_lines("a\r\nb\n\nc\r"), ["a", "b", "", "c\r"]);
    assert_eq!(text::split_lines(""), Vec::<String>::new());
    assert_eq!(text::find_second_word(" GET\t/x  HTTP").as_deref(), Some("/x"));
    assert_eq!(text::find_second_word("GET"), None);
    assert!(text::contains("abcabd", "abd"));
    assert!(text::contains("", ""));
    assert!(!text::contains("ab", "abc"));
    assert!(text::starts_with("application/json; x", "application/json"));
    assert!(text::same_ignoring_case("aZ9\u{e9}", "Az9\u{e9}"));
    assert!(!text::same_ignoring_case("\u{e9}", "\u{c9}"));
    assert_eq!(text::join(&vec!["a".into(), "b".into()], ", "), "a, b");
    assert_eq!(text::join(&vec![], ", "), "");
}

#[test]
fn whole_numbers_read_and_print() {
    for n in [0u64, 7, 10, 429, u64::MAX] {
        assert_eq!(text::decimal(n), n.to_string());
        assert_eq!(text::parse_u64(&n.to_string()), Some(n));
    }
    for n in [0i64, -1, i64::MIN, i64::MAX] {
        assert_eq!(text::signed(n), n.to_string());
    }
    assert_eq!(text::parse_u64("+5"), Some(5));
    assert_eq!(text::parse_u64("007"), Some(7));
    for odd in ["", "+", "-1", " 5", "1.0", "18446744073709551616", "\u{665}"] {
        assert_eq!(text::parse_u64(odd), None, "{odd:?}");
    }
}
