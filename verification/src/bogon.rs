//! Addresses that are answered locally because nothing routable has them.

use vstd::arithmetic::power2::pow2;
use vstd::prelude::*;

use crate::address::{
    address_like, groups, groups_text, groups_value, is_range, octets, parse_address, parse_prefix,
    parsed_address, parsed_prefix, range_v4, spells, v4_text, v4_value, v6_text, v6_value,
    whole_groups, Address, Prefix,
};
use crate::bogons::{
    ranges_v4, ranges_v6, table_v4, table_v6_6to4, table_v6_plain, table_v6_teredo, BOGON_V4,
    BOGON_V6,
};
use crate::lookup::{
    law_the_wire_has_nothing_else, law_the_wire_has_what_the_answer_has, AnswerView, ClassDetail,
    ClassView, Lookup, LookupResponse, LookupView, ProxyDetail, ProxyView, VpnDetail, VpnView,
};

verus! {

/// Reads ranges in CIDR notation.
fn parse_prefixes<const N: usize>(cidrs: &[&'static str; N]) -> (v: Vec<Prefix>)
    requires
        forall|i: int|
            0 <= i < N ==> is_range(#[trigger] cidrs@[i]@),
    ensures
        v@.len() == N,
        forall|i: int, prefix: Prefix|
            0 <= i < N && #[trigger] spells(cidrs@[i]@, prefix) ==> v@[i] == prefix,
        forall|i: int| 0 <= i < N ==> parsed_prefix(#[trigger] cidrs@[i]@) == Some(v@[i]),
{
    let mut v: Vec<Prefix> = Vec::new();
    for n in 0..N
        invariant
            forall|i: int|
                0 <= i < N ==> is_range(#[trigger] cidrs@[i]@),
            v@.len() == n,
            forall|i: int, prefix: Prefix|
                0 <= i < n && #[trigger] spells(cidrs@[i]@, prefix) ==> v@[i] == prefix,
            forall|i: int| 0 <= i < n ==> parsed_prefix(#[trigger] cidrs@[i]@) == Some(v@[i]),
    {
        match parse_prefix(cidrs[n]) {
            Some(prefix) => v.push(prefix),
            None => {
                let ghost prefix = choose|prefix: Prefix| spells(cidrs@[n as int]@, prefix);
                assert(spells(cidrs@[n as int]@, prefix));
                assert(false);
            },
        }
    }
    v
}

/// The IPv4 ranges that are not routable, read from their table.
pub fn prefixes_v4() -> (v: Vec<Prefix>)
    ensures
        v@ == ranges_v4(),
{
    proof {
        table_v4();
    }
    let v = parse_prefixes(&BOGON_V4);
    assert forall|i: int| 0 <= i < v@.len() implies v@[i] == ranges_v4()[i] by {
        assert(spells(BOGON_V4@[i]@, ranges_v4()[i]));
    }
    v
}

/// The IPv6 ranges that are not routable, read from their table.
pub fn prefixes_v6() -> (v: Vec<Prefix>)
    ensures
        v@ == ranges_v6(),
{
    proof {
        table_v6_plain();
        table_v6_6to4();
        table_v6_teredo();
    }
    let v = parse_prefixes(&BOGON_V6);
    assert forall|i: int| 0 <= i < v@.len() implies v@[i] == ranges_v6()[i] by {
        assert(spells(BOGON_V6@[i]@, ranges_v6()[i]));
    }
    v
}

/// The ranges an address is held against. A 4-in-6 address is an IPv6 address.
pub open spec fn ranges(address: Address) -> Seq<Prefix> {
    match address {
        Address::V4(_) => ranges_v4(),
        Address::V6(_) => ranges_v6(),
    }
}

/// Whether an address lies in one of the ranges that are not routable.
pub open spec fn bogon_address(address: Address) -> bool {
    exists|i: int|
        0 <= i < ranges(address).len() && (#[trigger] ranges(address)[i]).holds(address)
}

/// Whether one of the ranges has an address in it.
fn any_contains(table: &Vec<Prefix>, address: &Address) -> (r: bool)
    requires
        forall|i: int| 0 <= i < table@.len() ==> (#[trigger] table@[i]).valid(),
    ensures
        r == exists|i: int| 0 <= i < table@.len() && (#[trigger] table@[i]).holds(*address),
{
    for i in 0..table.len()
        invariant
            forall|j: int| 0 <= j < table@.len() ==> (#[trigger] table@[j]).valid(),
            forall|j: int| 0 <= j < i ==> !(#[trigger] table@[j]).holds(*address),
    {
        if table[i].contains(address) {
            return true;
        }
    }
    false
}

/// Whether a text is an address that is not routable.
pub open spec fn bogon_text(ip: Seq<char>) -> bool {
    match parsed_address(ip) {
        Some(address) => bogon_address(address),
        None => false,
    }
}

/// What the notation of a text says of whether it is a bogon: dotted decimal
/// octets, and hexadecimal groups, are held against the ranges as the number they
/// spell, and a text that is not made as that of an address is no bogon.
pub open spec fn as_written(ip: Seq<char>, bogon: bool) -> bool {
    &&& forall|a: nat, b: nat, c: nat, d: nat|
        octets(a, b, c, d) && ip == #[trigger] v4_text(a, b, c, d) ==> bogon == bogon_address(
            Address::V4(v4_value(a, b, c, d) as u32),
        )
    &&& forall|head: Seq<nat>, tail: Seq<nat>|
        groups(head, tail) && ip == #[trigger] v6_text(head, tail) ==> bogon == bogon_address(
            Address::V6(v6_value(head, tail) as u128),
        )
    &&& forall|all: Seq<nat>|
        #![trigger groups_text(all)]
        whole_groups(all) && ip == groups_text(all) ==> bogon == bogon_address(
            Address::V6(groups_value(all) as u128),
        )
    &&& !address_like(ip) ==> !bogon
}

/// Whether an address is private, loopback, link-local, documentation,
/// multicast or otherwise not routable on the public internet, including the
/// IPv6 equivalents and the 6to4 and Teredo ranges that wrap them. A text that is
/// not an address is not a bogon.
pub fn is_bogon(ip: &str) -> (r: bool)
    ensures
        r == bogon_text(ip@),
        as_written(ip@, r),
{
    let address = match parse_address(ip) {
        Some(address) => address,
        None => return false,
    };
    let table = match address {
        Address::V4(_) => prefixes_v4(),
        Address::V6(_) => prefixes_v6(),
    };
    assert(table@ == ranges(address));
    any_contains(&table, &address)
}

/// The answer a bogon gets.
pub open spec fn bogon_view(ip: Seq<char>) -> LookupView {
    LookupView {
        is_bogon: true,
        answer: AnswerView {
            ip,
            is_vpn: false,
            is_cdn: Some(false),
            is_dcproxy: Some(false),
            is_hosting: Some(false),
            is_mobproxy: Some(false),
            is_relay: Some(false),
            is_resproxy: Some(false),
            is_tor: Some(false),
            cdn: Some(ClassView::empty()),
            dcproxy: Some(ProxyView::empty()),
            hosting: Some(ClassView::empty()),
            mobproxy: Some(ProxyView::empty()),
            relay: Some(ClassView::empty()),
            resproxy: Some(ProxyView::empty()),
            tor: Some(ClassView::empty()),
            vpn: Some(VpnView::empty()),
        },
    }
}

/// The answer a bogon gets: the full shape the API serves on its widest plan,
/// every flag present and false and every detail object present and empty, and
/// marked as computed rather than served.
pub fn bogon_lookup(ip: &str) -> (r: Lookup)
    ensures
        r@ == bogon_view(ip@),
{
    Lookup {
        is_bogon: true,
        answer: LookupResponse {
            ip: ip.to_owned(),
            is_vpn: false,
            is_cdn: Some(false),
            is_dcproxy: Some(false),
            is_hosting: Some(false),
            is_mobproxy: Some(false),
            is_relay: Some(false),
            is_resproxy: Some(false),
            is_tor: Some(false),
            cdn: Some(ClassDetail::empty()),
            dcproxy: Some(ProxyDetail::empty()),
            hosting: Some(ClassDetail::empty()),
            mobproxy: Some(ProxyDetail::empty()),
            relay: Some(ClassDetail::empty()),
            resproxy: Some(ProxyDetail::empty()),
            tor: Some(ClassDetail::empty()),
            vpn: Some(VpnDetail::empty()),
        },
    }
}

/// The answer to a bogon leaves no member out: it has every member that any
/// other answer has.
pub proof fn law_a_bogon_answer_is_the_widest(ip: Seq<char>, other: AnswerView, name: Seq<char>)
    requires
        other.wire().member(name) is Some,
    ensures
        bogon_view(ip).answer.wire().member(name) is Some,
{
    let answer = bogon_view(ip).answer;
    if forall|i: int| 0 <= i < other.fields().len() ==> (#[trigger] other.fields()[i]).0 != name {
        law_the_wire_has_nothing_else(other, name);
    } else {
        let i = choose|i: int|
            0 <= i < other.fields().len() && (#[trigger] other.fields()[i]).0 == name;
        assert(answer.fields()[i].0 == name);
        law_the_wire_has_what_the_answer_has(answer, i);
    }
}

/// The IPv4 bogons, octet by octet.
pub open spec fn bogon_octets(a: nat, b: nat, c: nat, d: nat) -> bool {
    ||| a == 0 || a == 10 || a == 127 || a >= 224
    ||| a == 100 && 64 <= b < 128
    ||| a == 169 && b == 254
    ||| a == 172 && 16 <= b < 32
    ||| a == 192 && (b == 168 || b == 0 && (c == 0 || c == 2))
    ||| a == 198 && (b == 18 || b == 19 || b == 51 && c == 100)
    ||| a == 203 && b == 0 && c == 113
}

proof fn held_v4(a: nat, b: nat, c: nat, d: nat, len: nat, size: nat, v: nat)
    requires
        octets(a, b, c, d),
        len <= 32,
        size == pow2((32 - len) as nat),
        v <= u32::MAX,
    ensures
        range_v4(a, b, c, d, len).holds(Address::V4(v as u32)) == (v4_value(a, b, c, d) / size == v
            / size),
{
}

/// The IPv4 bogons are exactly the private, shared, loopback, link-local,
/// documentation, benchmarking, multicast and reserved addresses.
pub proof fn law_ipv4_bogons(a: nat, b: nat, c: nat, d: nat)
    requires
        octets(a, b, c, d),
    ensures
        bogon_address(Address::V4(v4_value(a, b, c, d) as u32)) == bogon_octets(a, b, c, d),
{
    vstd::arithmetic::power2::lemma2_to64();
    let address = Address::V4(v4_value(a, b, c, d) as u32);
    let table = ranges_v4();
    let v = v4_value(a, b, c, d);
    held_v4(0, 0, 0, 0, 8, 0x1000000, v);
    held_v4(10, 0, 0, 0, 8, 0x1000000, v);
    held_v4(100, 64, 0, 0, 10, 0x400000, v);
    held_v4(127, 0, 0, 0, 8, 0x1000000, v);
    held_v4(169, 254, 0, 0, 16, 0x10000, v);
    held_v4(172, 16, 0, 0, 12, 0x100000, v);
    held_v4(192, 0, 0, 0, 24, 0x100, v);
    held_v4(192, 0, 2, 0, 24, 0x100, v);
    held_v4(192, 168, 0, 0, 16, 0x10000, v);
    held_v4(198, 18, 0, 0, 15, 0x20000, v);
    held_v4(198, 51, 100, 0, 24, 0x100, v);
    held_v4(203, 0, 113, 0, 24, 0x100, v);
    held_v4(224, 0, 0, 0, 4, 0x10000000, v);
    held_v4(240, 0, 0, 0, 4, 0x10000000, v);
    held_v4(255, 255, 255, 255, 32, 0x1, v);
    assert(v / 0x1000_0000 == a / 16);
    assert(v / 0x100_0000 == a);
    assert(v / 0x40_0000 == a * 4 + b / 64);
    assert(v / 0x10_0000 == a * 16 + b / 16);
    assert(v / 0x2_0000 == a * 128 + b / 2);
    assert(v / 0x1_0000 == a * 256 + b);
    assert(v / 0x100 == a * 65536 + b * 256 + c);
    assert(table[0].holds(address) == (a == 0));
    assert(table[1].holds(address) == (a == 10));
    assert(table[2].holds(address) == (a == 100 && 64 <= b < 128));
    assert(table[3].holds(address) == (a == 127));
    assert(table[4].holds(address) == (a == 169 && b == 254));
    assert(table[5].holds(address) == (a == 172 && 16 <= b < 32));
    assert(table[6].holds(address) == (a == 192 && b == 0 && c == 0));
    assert(table[7].holds(address) == (a == 192 && b == 0 && c == 2));
    assert(table[8].holds(address) == (a == 192 && b == 168));
    assert(table[9].holds(address) == (a == 198 && (b == 18 || b == 19)));
    assert(table[10].holds(address) == (a == 198 && b == 51 && c == 100));
    assert(table[11].holds(address) == (a == 203 && b == 0 && c == 113));
    assert(table[12].holds(address) == (224 <= a < 240));
    assert(table[13].holds(address) == (240 <= a));
    assert(table[14].holds(address) ==> 240 <= a);
    assert(table.len() == 15);
}

/// Which IPv4 addresses are bogons, in so many octets: this network, the private
/// ranges, the shared one, loopback, link-local, protocol assignments, the three
/// documentation ranges, benchmarking, multicast and everything above it. Every other
/// address is public.
pub proof fn law_public_ipv4_addresses_are_no_bogons(a: nat, b: nat, c: nat, d: nat)
    requires
        a < 256,
        b < 256,
        c < 256,
        d < 256,
    ensures
        bogon_address(Address::V4((a * 0x100_0000 + b * 0x1_0000 + c * 0x100 + d) as u32)) == {
            ||| a == 0
            ||| a == 10
            ||| a == 100 && 64 <= b <= 127
            ||| a == 127
            ||| a == 169 && b == 254
            ||| a == 172 && 16 <= b <= 31
            ||| a == 192 && b == 0 && c == 0
            ||| a == 192 && b == 0 && c == 2
            ||| a == 192 && b == 168
            ||| a == 198 && b == 18
            ||| a == 198 && b == 19
            ||| a == 198 && b == 51 && c == 100
            ||| a == 203 && b == 0 && c == 113
            ||| a >= 224
        },
{
    law_ipv4_bogons(a, b, c, d);
}

/// The answer to a bogon names the address it was asked about, says no to every flag,
/// has every detail and nothing in any of them, and says that it was computed.
pub proof fn law_a_bogon_is_answered_no_throughout(ip: Seq<char>)
    ensures
        bogon_view(ip).is_bogon,
        bogon_view(ip).answer.ip == ip,
        !bogon_view(ip).answer.is_vpn,
        bogon_view(ip).answer.is_cdn == Some(false),
        bogon_view(ip).answer.is_dcproxy == Some(false),
        bogon_view(ip).answer.is_hosting == Some(false),
        bogon_view(ip).answer.is_mobproxy == Some(false),
        bogon_view(ip).answer.is_relay == Some(false),
        bogon_view(ip).answer.is_resproxy == Some(false),
        bogon_view(ip).answer.is_tor == Some(false),
        bogon_view(ip).answer.cdn == Some(
            ClassView { confidence: None, last_seen: None, provider: None },
        ),
        bogon_view(ip).answer.hosting == bogon_view(ip).answer.cdn,
        bogon_view(ip).answer.relay == bogon_view(ip).answer.cdn,
        bogon_view(ip).answer.tor == bogon_view(ip).answer.cdn,
        bogon_view(ip).answer.dcproxy == Some(
            ProxyView {
                first_seen: None,
                hits: None,
                hits_days_pct: None,
                last_seen: None,
                provider: None,
                providers_num: None,
            },
        ),
        bogon_view(ip).answer.mobproxy == bogon_view(ip).answer.dcproxy,
        bogon_view(ip).answer.resproxy == bogon_view(ip).answer.dcproxy,
        bogon_view(ip).answer.vpn == Some(
            VpnView { confidence: None, last_seen: None, method: None, provider: None },
        ),
{
}

/// A range holds exactly the addresses of its own family that lie in the same block of
/// as many addresses as the bits behind its length can tell apart.
pub proof fn law_a_range_holds_one_block(a: u32, b: u32, x: u128, y: u128, len: u8)
    ensures
        len <= 32 ==> (Prefix::V4 { address: a, len }).holds(Address::V4(b)) == (a as nat / pow2(
            (32 - len) as nat,
        ) == b as nat / pow2((32 - len) as nat)),
        len <= 128 ==> (Prefix::V6 { address: x, len }).holds(Address::V6(y)) == (x as nat / pow2(
            (128 - len) as nat,
        ) == y as nat / pow2((128 - len) as nat)),
        !(Prefix::V4 { address: a, len }).holds(Address::V6(y)),
        !(Prefix::V6 { address: x, len }).holds(Address::V4(b)),
{
}

/// A text is a bogon exactly when it is an address and that address is one.
pub proof fn law_only_an_address_is_a_bogon(ip: Seq<char>)
    ensures
        parsed_address(ip) is None ==> !bogon_text(ip),
        parsed_address(ip) matches Some(address) ==> bogon_text(ip) == bogon_address(address),
{
}

}
