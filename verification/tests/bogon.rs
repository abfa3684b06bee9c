//! The addresses that are answered locally.

use vpndetection::address::{Address, Prefix};
use vpndetection::bogon::{bogon_lookup, prefixes_v4, prefixes_v6};
use vpndetection::bogons::{BOGON_V4, BOGON_V6};
use vpndetection::is_bogon;
use vpndetection::json::{render, Json};

#[test]
fn every_generated_range_parses() {
    assert_eq!(prefixes_v4().len(), BOGON_V4.len());
    assert_eq!(prefixes_v6().len(), BOGON_V6.len());
}

#[test]
fn every_generated_range_is_reachable_through_the_predicate() {
    for cidr in BOGON_V4.iter().chain(BOGON_V6.iter()) {
        let host = cidr.split('/').next().expect("a cidr has a network part");
        assert!(is_bogon(host), "{cidr}: the network address should be a bogon");
    }
}

#[test]
fn is_bogon_matches_the_canonical_ranges() {
    for (ip, expect) in [
        ("10.0.0.1", true),
        ("10.255.255.255", true),
        ("11.0.0.0", false),
        ("127.0.0.1", true),
        ("169.254.0.1", true),
        ("172.15.255.255", false),
        ("172.16.0.0", true),
        ("172.31.255.255", true),
        ("172.32.0.0", false),
        ("192.168.1.1", true),
        ("192.0.2.7", true),
        ("198.51.100.4", true),
        ("203.0.113.9", true),
        ("224.0.0.1", true),
        ("255.255.255.255", true),
        ("0.0.0.0", true),
        ("8.8.8.8", false),
        ("45.83.91.1", false),
        ("1.1.1.1", false),
        ("::", true),
        ("::1", true),
        ("fe80::1", true),
        ("fc00::1", true),
        ("fdff:ffff::1", true),
        ("2001:db8::1", true),
        ("ff02::1", true),
        ("2002:a00:1::", true),
        ("::ffff:8.8.8.8", true),
        ("2606:4700:4700::1111", false),
        ("2a00:1450:4001::1", false),
    ] {
        assert_eq!(is_bogon(ip), expect, "is_bogon({ip:?}) should be {expect}");
    }
}

#[test]
fn a_text_that_is_no_address_is_no_bogon() {
    for text in ["", "10.0.0", "10.0.0.256", "10.0.0.1 ", "010.0.0.1", "example.com", "1:2"] {
        assert!(!is_bogon(text), "{text:?}");
    }
    for text in ["127", "::1%eth0", "fe80::1%1", "[::1]", "10.0.0.1/8", "10.0.0.1:80", "\u{661}.1.1.1"]
    {
        assert!(!is_bogon(text), "{text:?}");
    }
}

#[test]
fn eight_groups_are_held_against_the_ranges() {
    assert!(is_bogon("fe80:0:0:0:0:0:0:1"));
    assert!(is_bogon("0:0:0:0:0:0:0:1"));
    assert!(!is_bogon("2a00:1450:4001:0:0:0:0:1"));
}

#[test]
fn a_6to4_address_is_a_bogon_with_the_address_it_wraps() {
    for (outer, inner) in [
        ("2002:0a00:0001::", "10.0.0.1"),
        ("2002:c0a8:0101::", "192.168.1.1"),
        ("2002:7f00:0001::", "127.0.0.1"),
        ("2002:0808:0808::", "8.8.8.8"),
    ] {
        assert_eq!(is_bogon(outer), is_bogon(inner), "{outer} wraps {inner}");
    }
}

#[test]
fn a_teredo_address_is_a_bogon_with_the_server_it_names() {
    for (outer, inner) in [
        ("2001:0:a00:1::", "10.0.0.1"),
        ("2001:0:c0a8:101::", "192.168.1.1"),
        ("2001:0:808:808::", "8.8.8.8"),
    ] {
        assert_eq!(is_bogon(outer), is_bogon(inner), "{outer} names {inner}");
    }
}

#[test]
fn a_bogon_is_answered_locally_in_the_full_max_shape() {
    let result = bogon_lookup("10.0.0.1");
    assert!(result.is_bogon, "is_bogon should mark a locally computed answer");
    assert_eq!(result.answer.ip, "10.0.0.1");
    let wire = result.answer.wire();
    for name in ["vpn", "hosting", "relay", "tor", "cdn", "resproxy", "dcproxy", "mobproxy"] {
        match wire.get(&format!("is_{name}")) {
            Some(Json::Bool(false)) => (),
            other => panic!("is_{name} must be present and false, not {other:?}"),
        }
        match wire.get(name) {
            Some(Json::Object(members)) => assert!(members.is_empty(), "{name} must be EMPTY"),
            other => panic!("{name} must be present and empty, not {other:?}"),
        }
    }
    match &wire {
        Json::Object(members) => assert_eq!(members.len(), 17),
        other => panic!("{other:?}"),
    }
    assert!(render(&wire).contains("\"ip\":\"10.0.0.1\""), "{}", render(&wire));
}

#[test]
fn a_prefix_holds_its_own_family_only() {
    let ten = Prefix::V4 { address: 0x0a00_0000, len: 8 };
    assert!(ten.contains(&Address::V4(0x0aff_ffff)));
    assert!(!ten.contains(&Address::V4(0x0b00_0000)));
    assert!(!ten.contains(&Address::V6(0x0a00_0000)));

    let all = Prefix::V4 { address: 0, len: 0 };
    assert!(all.contains(&Address::V4(u32::MAX)));

    let one = Prefix::V6 { address: 1, len: 128 };
    assert!(one.contains(&Address::V6(1)));
    assert!(!one.contains(&Address::V6(0)));

    // Host bits of the prefix itself do not count.
    let sloppy = Prefix::V4 { address: 0xc0a8_01ff, len: 16 };
    assert!(sloppy.contains(&Address::V4(0xc0a8_0000)));
}
