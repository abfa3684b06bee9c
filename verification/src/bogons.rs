//! The address ranges that are not routable on the public internet.

use vstd::prelude::*;

use crate::address::{
    groups, groups_text, octets, range_v4, range_v6, slash_text, spells, v4_text, v6_text, Prefix,
};
use crate::text::{decimal_text, digit, hex_digit, hex_text};

verus! {

/// The IPv4 ranges: this network, private, shared, loopback, link-local,
/// protocol assignments, documentation, benchmarking, multicast, reserved and
/// broadcast.
pub const BOGON_V4: [&'static str; 15] = [
    "0.0.0.0/8",
    "10.0.0.0/8",
    "100.64.0.0/10",
    "127.0.0.0/8",
    "169.254.0.0/16",
    "172.16.0.0/12",
    "192.0.0.0/24",
    "192.0.2.0/24",
    "192.168.0.0/16",
    "198.18.0.0/15",
    "198.51.100.0/24",
    "203.0.113.0/24",
    "224.0.0.0/4",
    "240.0.0.0/4",
    "255.255.255.255/32",
];

/// The IPv6 ranges: unspecified, loopback, mapped, compatible, discard, overlay,
/// documentation, unique local, link-local, site-local and multicast, then the
/// 6to4 and the Teredo ranges that wrap the IPv4 ones.
pub const BOGON_V6: [&'static str; 39] = [
    "::/128",
    "::1/128",
    "::ffff:0:0/96",
    "::/96",
    "100::/64",
    "2001:10::/28",
    "2001:db8::/32",
    "fc00::/7",
    "fe80::/10",
    "fec0::/10",
    "ff00::/8",
    "2002::/24",
    "2002:a00::/24",
    "2002:7f00::/24",
    "2002:a9fe::/32",
    "2002:ac10::/28",
    "2002:c000::/40",
    "2002:c000:200::/40",
    "2002:c0a8::/32",
    "2002:c612::/31",
    "2002:c633:6400::/40",
    "2002:cb00:7100::/40",
    "2002:e000::/20",
    "2002:f000::/20",
    "2002:ffff:ffff::/48",
    "2001::/40",
    "2001:0:a00::/40",
    "2001:0:7f00::/40",
    "2001:0:a9fe::/48",
    "2001:0:ac10::/44",
    "2001:0:c000::/56",
    "2001:0:c000:200::/56",
    "2001:0:c0a8::/48",
    "2001:0:c612::/47",
    "2001:0:c633:6400::/56",
    "2001:0:cb00:7100::/56",
    "2001:0:e000::/36",
    "2001:0:f000::/36",
    "2001:0:ffff:ffff::/64",
];

/// The IPv4 ranges that are not routable.
pub open spec fn ranges_v4() -> Seq<Prefix> {
    seq![
        range_v4(0, 0, 0, 0, 8),
        range_v4(10, 0, 0, 0, 8),
        range_v4(100, 64, 0, 0, 10),
        range_v4(127, 0, 0, 0, 8),
        range_v4(169, 254, 0, 0, 16),
        range_v4(172, 16, 0, 0, 12),
        range_v4(192, 0, 0, 0, 24),
        range_v4(192, 0, 2, 0, 24),
        range_v4(192, 168, 0, 0, 16),
        range_v4(198, 18, 0, 0, 15),
        range_v4(198, 51, 100, 0, 24),
        range_v4(203, 0, 113, 0, 24),
        range_v4(224, 0, 0, 0, 4),
        range_v4(240, 0, 0, 0, 4),
        range_v4(255, 255, 255, 255, 32),
    ]
}

/// The IPv6 ranges that are not routable.
pub open spec fn ranges_v6() -> Seq<Prefix> {
    seq![
        range_v6(seq![], seq![], 128),
        range_v6(seq![], seq![0x1nat], 128),
        range_v6(seq![], seq![0xffffnat, 0x0nat, 0x0nat], 96),
        range_v6(seq![], seq![], 96),
        range_v6(seq![0x100nat], seq![], 64),
        range_v6(seq![0x2001nat, 0x10nat], seq![], 28),
        range_v6(seq![0x2001nat, 0xdb8nat], seq![], 32),
        range_v6(seq![0xfc00nat], seq![], 7),
        range_v6(seq![0xfe80nat], seq![], 10),
        range_v6(seq![0xfec0nat], seq![], 10),
        range_v6(seq![0xff00nat], seq![], 8),
        range_v6(seq![0x2002nat], seq![], 24),
        range_v6(seq![0x2002nat, 0xa00nat], seq![], 24),
        range_v6(seq![0x2002nat, 0x7f00nat], seq![], 24),
        range_v6(seq![0x2002nat, 0xa9fenat], seq![], 32),
        range_v6(seq![0x2002nat, 0xac10nat], seq![], 28),
        range_v6(seq![0x2002nat, 0xc000nat], seq![], 40),
        range_v6(seq![0x2002nat, 0xc000nat, 0x200nat], seq![], 40),
        range_v6(seq![0x2002nat, 0xc0a8nat], seq![], 32),
        range_v6(seq![0x2002nat, 0xc612nat], seq![], 31),
        range_v6(seq![0x2002nat, 0xc633nat, 0x6400nat], seq![], 40),
        range_v6(seq![0x2002nat, 0xcb00nat, 0x7100nat], seq![], 40),
        range_v6(seq![0x2002nat, 0xe000nat], seq![], 20),
        range_v6(seq![0x2002nat, 0xf000nat], seq![], 20),
        range_v6(seq![0x2002nat, 0xffffnat, 0xffffnat], seq![], 48),
        range_v6(seq![0x2001nat], seq![], 40),
        range_v6(seq![0x2001nat, 0x0nat, 0xa00nat], seq![], 40),
        range_v6(seq![0x2001nat, 0x0nat, 0x7f00nat], seq![], 40),
        range_v6(seq![0x2001nat, 0x0nat, 0xa9fenat], seq![], 48),
        range_v6(seq![0x2001nat, 0x0nat, 0xac10nat], seq![], 44),
        range_v6(seq![0x2001nat, 0x0nat, 0xc000nat], seq![], 56),
        range_v6(seq![0x2001nat, 0x0nat, 0xc000nat, 0x200nat], seq![], 56),
        range_v6(seq![0x2001nat, 0x0nat, 0xc0a8nat], seq![], 48),
        range_v6(seq![0x2001nat, 0x0nat, 0xc612nat], seq![], 47),
        range_v6(seq![0x2001nat, 0x0nat, 0xc633nat, 0x6400nat], seq![], 56),
        range_v6(seq![0x2001nat, 0x0nat, 0xcb00nat, 0x7100nat], seq![], 56),
        range_v6(seq![0x2001nat, 0x0nat, 0xe000nat], seq![], 36),
        range_v6(seq![0x2001nat, 0x0nat, 0xf000nat], seq![], 36),
        range_v6(seq![0x2001nat, 0x0nat, 0xffffnat, 0xffffnat], seq![], 64),
    ]
}

pub(crate) proof fn table_v4()
    ensures
        forall|i: int| 0 <= i < 15 ==> spells(#[trigger] BOGON_V4@[i]@, ranges_v4()[i]),
{
    assert(spells("0.0.0.0/8"@, range_v4(0, 0, 0, 0, 8))) by {
        reveal_strlit("0.0.0.0/8");
        decimal_1(0);
        decimal_1(8);
        assert("0.0.0.0/8"@ =~= v4_text(0, 0, 0, 0) + slash_text(8));
        spelled_v4("0.0.0.0/8"@, 0, 0, 0, 0, 8);
    }
    assert(spells("10.0.0.0/8"@, range_v4(10, 0, 0, 0, 8))) by {
        reveal_strlit("10.0.0.0/8");
        decimal_2(10);
        decimal_1(0);
        decimal_1(8);
        assert("10.0.0.0/8"@ =~= v4_text(10, 0, 0, 0) + slash_text(8));
        spelled_v4("10.0.0.0/8"@, 10, 0, 0, 0, 8);
    }
    assert(spells("100.64.0.0/10"@, range_v4(100, 64, 0, 0, 10))) by {
        reveal_strlit("100.64.0.0/10");
        decimal_3(100);
        decimal_2(64);
        decimal_1(0);
        decimal_2(10);
        assert("100.64.0.0/10"@ =~= v4_text(100, 64, 0, 0) + slash_text(10));
        spelled_v4("100.64.0.0/10"@, 100, 64, 0, 0, 10);
    }
    assert(spells("127.0.0.0/8"@, range_v4(127, 0, 0, 0, 8))) by {
        reveal_strlit("127.0.0.0/8");
        decimal_3(127);
        decimal_1(0);
        decimal_1(8);
        assert("127.0.0.0/8"@ =~= v4_text(127, 0, 0, 0) + slash_text(8));
        spelled_v4("127.0.0.0/8"@, 127, 0, 0, 0, 8);
    }
    assert(spells("169.254.0.0/16"@, range_v4(169, 254, 0, 0, 16))) by {
        reveal_strlit("169.254.0.0/16");
        decimal_3(169);
        decimal_3(254);
        decimal_1(0);
        decimal_2(16);
        assert("169.254.0.0/16"@ =~= v4_text(169, 254, 0, 0) + slash_text(16));
        spelled_v4("169.254.0.0/16"@, 169, 254, 0, 0, 16);
    }
    assert(spells("172.16.0.0/12"@, range_v4(172, 16, 0, 0, 12))) by {
        reveal_strlit("172.16.0.0/12");
        decimal_3(172);
        decimal_2(16);
        decimal_1(0);
        decimal_2(12);
        assert("172.16.0.0/12"@ =~= v4_text(172, 16, 0, 0) + slash_text(12));
        spelled_v4("172.16.0.0/12"@, 172, 16, 0, 0, 12);
    }
    assert(spells("192.0.0.0/24"@, range_v4(192, 0, 0, 0, 24))) by {
        reveal_strlit("192.0.0.0/24");
        decimal_3(192);
        decimal_1(0);
        decimal_2(24);
        assert("192.0.0.0/24"@ =~= v4_text(192, 0, 0, 0) + slash_text(24));
        spelled_v4("192.0.0.0/24"@, 192, 0, 0, 0, 24);
    }
    assert(spells("192.0.2.0/24"@, range_v4(192, 0, 2, 0, 24))) by {
        reveal_strlit("192.0.2.0/24");
        decimal_3(192);
        decimal_1(0);
        decimal_1(2);
        decimal_2(24);
        assert("192.0.2.0/24"@ =~= v4_text(192, 0, 2, 0) + slash_text(24));
        spelled_v4("192.0.2.0/24"@, 192, 0, 2, 0, 24);
    }
    assert(spells("192.168.0.0/16"@, range_v4(192, 168, 0, 0, 16))) by {
        reveal_strlit("192.168.0.0/16");
        decimal_3(192);
        decimal_3(168);
        decimal_1(0);
        decimal_2(16);
        assert("192.168.0.0/16"@ =~= v4_text(192, 168, 0, 0) + slash_text(16));
        spelled_v4("192.168.0.0/16"@, 192, 168, 0, 0, 16);
    }
    assert(spells("198.18.0.0/15"@, range_v4(198, 18, 0, 0, 15))) by {
        reveal_strlit("198.18.0.0/15");
        decimal_3(198);
        decimal_2(18);
        decimal_1(0);
        decimal_2(15);
        assert("198.18.0.0/15"@ =~= v4_text(198, 18, 0, 0) + slash_text(15));
        spelled_v4("198.18.0.0/15"@, 198, 18, 0, 0, 15);
    }
    assert(spells("198.51.100.0/24"@, range_v4(198, 51, 100, 0, 24))) by {
        reveal_strlit("198.51.100.0/24");
        decimal_3(198);
        decimal_2(51);
        decimal_3(100);
        decimal_1(0);
        decimal_2(24);
        assert("198.51.100.0/24"@ =~= v4_text(198, 51, 100, 0) + slash_text(24));
        spelled_v4("198.51.100.0/24"@, 198, 51, 100, 0, 24);
    }
    assert(spells("203.0.113.0/24"@, range_v4(203, 0, 113, 0, 24))) by {
        reveal_strlit("203.0.113.0/24");
        decimal_3(203);
        decimal_1(0);
        decimal_3(113);
        decimal_2(24);
        assert("203.0.113.0/24"@ =~= v4_text(203, 0, 113, 0) + slash_text(24));
        spelled_v4("203.0.113.0/24"@, 203, 0, 113, 0, 24);
    }
    assert(spells("224.0.0.0/4"@, range_v4(224, 0, 0, 0, 4))) by {
        reveal_strlit("224.0.0.0/4");
        decimal_3(224);
        decimal_1(0);
        decimal_1(4);
        assert("224.0.0.0/4"@ =~= v4_text(224, 0, 0, 0) + slash_text(4));
        spelled_v4("224.0.0.0/4"@, 224, 0, 0, 0, 4);
    }
    assert(spells("240.0.0.0/4"@, range_v4(240, 0, 0, 0, 4))) by {
        reveal_strlit("240.0.0.0/4");
        decimal_3(240);
        decimal_1(0);
        decimal_1(4);
        assert("240.0.0.0/4"@ =~= v4_text(240, 0, 0, 0) + slash_text(4));
        spelled_v4("240.0.0.0/4"@, 240, 0, 0, 0, 4);
    }
    assert(spells("255.255.255.255/32"@, range_v4(255, 255, 255, 255, 32))) by {
        reveal_strlit("255.255.255.255/32");
        decimal_3(255);
        decimal_2(32);
        assert("255.255.255.255/32"@ =~= v4_text(255, 255, 255, 255) + slash_text(32));
        spelled_v4("255.255.255.255/32"@, 255, 255, 255, 255, 32);
    }
}

pub(crate) proof fn table_v6_plain()
    ensures
        forall|i: int| 0 <= i < 11 ==> spells(#[trigger] BOGON_V6@[i]@, ranges_v6()[i]),
{
    assert(spells("::/128"@, range_v6(seq![], seq![], 128))) by {
        reveal_strlit("::/128");
        decimal_3(128);
        assert("::/128"@ =~= v6_text(seq![], seq![]) + slash_text(128));
        spelled_v6("::/128"@, seq![], seq![], 128);
    }
    assert(spells("::1/128"@, range_v6(seq![], seq![0x1nat], 128))) by {
        reveal_strlit("::1/128");
        decimal_3(128);
        hex_1(0x1);
        groups_1(0x1);
        assert("::1/128"@ =~= v6_text(seq![], seq![0x1nat]) + slash_text(128));
        spelled_v6("::1/128"@, seq![], seq![0x1nat], 128);
    }
    assert(spells("::ffff:0:0/96"@, range_v6(seq![], seq![0xffffnat, 0x0nat, 0x0nat], 96))) by {
        reveal_strlit("::ffff:0:0/96");
        decimal_2(96);
        hex_4(0xffff);
        hex_1(0x0);
        groups_3(0xffff, 0x0, 0x0);
        assert("::ffff:0:0/96"@ =~= v6_text(seq![], seq![0xffffnat, 0x0nat, 0x0nat]) + slash_text(96));
        spelled_v6("::ffff:0:0/96"@, seq![], seq![0xffffnat, 0x0nat, 0x0nat], 96);
    }
    assert(spells("::/96"@, range_v6(seq![], seq![], 96))) by {
        reveal_strlit("::/96");
        decimal_2(96);
        assert("::/96"@ =~= v6_text(seq![], seq![]) + slash_text(96));
        spelled_v6("::/96"@, seq![], seq![], 96);
    }
    assert(spells("100::/64"@, range_v6(seq![0x100nat], seq![], 64))) by {
        reveal_strlit("100::/64");
        decimal_2(64);
        hex_3(0x100);
        groups_1(0x100);
        assert("100::/64"@ =~= v6_text(seq![0x100nat], seq![]) + slash_text(64));
        spelled_v6("100::/64"@, seq![0x100nat], seq![], 64);
    }
    assert(spells("2001:10::/28"@, range_v6(seq![0x2001nat, 0x10nat], seq![], 28))) by {
        reveal_strlit("2001:10::/28");
        decimal_2(28);
        hex_4(0x2001);
        hex_2(0x10);
        groups_2(0x2001, 0x10);
        assert("2001:10::/28"@ =~= v6_text(seq![0x2001nat, 0x10nat], seq![]) + slash_text(28));
        spelled_v6("2001:10::/28"@, seq![0x2001nat, 0x10nat], seq![], 28);
    }
    assert(spells("2001:db8::/32"@, range_v6(seq![0x2001nat, 0xdb8nat], seq![], 32))) by {
        reveal_strlit("2001:db8::/32");
        decimal_2(32);
        hex_4(0x2001);
        hex_3(0xdb8);
        groups_2(0x2001, 0xdb8);
        assert("2001:db8::/32"@ =~= v6_text(seq![0x2001nat, 0xdb8nat], seq![]) + slash_text(32));
        spelled_v6("2001:db8::/32"@, seq![0x2001nat, 0xdb8nat], seq![], 32);
    }
    assert(spells("fc00::/7"@, range_v6(seq![0xfc00nat], seq![], 7))) by {
        reveal_strlit("fc00::/7");
        decimal_1(7);
        hex_4(0xfc00);
        groups_1(0xfc00);
        assert("fc00::/7"@ =~= v6_text(seq![0xfc00nat], seq![]) + slash_text(7));
        spelled_v6("fc00::/7"@, seq![0xfc00nat], seq![], 7);
    }
    assert(spells("fe80::/10"@, range_v6(seq![0xfe80nat], seq![], 10))) by {
        reveal_strlit("fe80::/10");
        decimal_2(10);
        hex_4(0xfe80);
        groups_1(0xfe80);
        assert("fe80::/10"@ =~= v6_text(seq![0xfe80nat], seq![]) + slash_text(10));
        spelled_v6("fe80::/10"@, seq![0xfe80nat], seq![], 10);
    }
    assert(spells("fec0::/10"@, range_v6(seq![0xfec0nat], seq![], 10))) by {
        reveal_strlit("fec0::/10");
        decimal_2(10);
        hex_4(0xfec0);
        groups_1(0xfec0);
        assert("fec0::/10"@ =~= v6_text(seq![0xfec0nat], seq![]) + slash_text(10));
        spelled_v6("fec0::/10"@, seq![0xfec0nat], seq![], 10);
    }
    assert(spells("ff00::/8"@, range_v6(seq![0xff00nat], seq![], 8))) by {
        reveal_strlit("ff00::/8");
        decimal_1(8);
        hex_4(0xff00);
        groups_1(0xff00);
        assert("ff00::/8"@ =~= v6_text(seq![0xff00nat], seq![]) + slash_text(8));
        spelled_v6("ff00::/8"@, seq![0xff00nat], seq![], 8);
    }
}

pub(crate) proof fn table_v6_6to4()
    ensures
        forall|i: int| 11 <= i < 25 ==> spells(#[trigger] BOGON_V6@[i]@, ranges_v6()[i]),
{
    assert(spells("2002::/24"@, range_v6(seq![0x2002nat], seq![], 24))) by {
        reveal_strlit("2002::/24");
        decimal_2(24);
        hex_4(0x2002);
        groups_1(0x2002);
        assert("2002::/24"@ =~= v6_text(seq![0x2002nat], seq![]) + slash_text(24));
        spelled_v6("2002::/24"@, seq![0x2002nat], seq![], 24);
    }
    assert(spells("2002:a00::/24"@, range_v6(seq![0x2002nat, 0xa00nat], seq![], 24))) by {
        reveal_strlit("2002:a00::/24");
        decimal_2(24);
        hex_4(0x2002);
        hex_3(0xa00);
        groups_2(0x2002, 0xa00);
        assert("2002:a00::/24"@ =~= v6_text(seq![0x2002nat, 0xa00nat], seq![]) + slash_text(24));
        spelled_v6("2002:a00::/24"@, seq![0x2002nat, 0xa00nat], seq![], 24);
    }
    assert(spells("2002:7f00::/24"@, range_v6(seq![0x2002nat, 0x7f00nat], seq![], 24))) by {
        reveal_strlit("2002:7f00::/24");
        decimal_2(24);
        hex_4(0x2002);
        hex_4(0x7f00);
        groups_2(0x2002, 0x7f00);
        assert("2002:7f00::/24"@ =~= v6_text(seq![0x2002nat, 0x7f00nat], seq![]) + slash_text(24));
        spelled_v6("2002:7f00::/24"@, seq![0x2002nat, 0x7f00nat], seq![], 24);
    }
    assert(spells("2002:a9fe::/32"@, range_v6(seq![0x2002nat, 0xa9fenat], seq![], 32))) by {
        reveal_strlit("2002:a9fe::/32");
        decimal_2(32);
        hex_4(0x2002);
        hex_4(0xa9fe);
        groups_2(0x2002, 0xa9fe);
        assert("2002:a9fe::/32"@ =~= v6_text(seq![0x2002nat, 0xa9fenat], seq![]) + slash_text(32));
        spelled_v6("2002:a9fe::/32"@, seq![0x2002nat, 0xa9fenat], seq![], 32);
    }
    assert(spells("2002:ac10::/28"@, range_v6(seq![0x2002nat, 0xac10nat], seq![], 28))) by {
        reveal_strlit("2002:ac10::/28");
        decimal_2(28);
        hex_4(0x2002);
        hex_4(0xac10);
        groups_2(0x2002, 0xac10);
        assert("2002:ac10::/28"@ =~= v6_text(seq![0x2002nat, 0xac10nat], seq![]) + slash_text(28));
        spelled_v6("2002:ac10::/28"@, seq![0x2002nat, 0xac10nat], seq![], 28);
    }
    assert(spells("2002:c000::/40"@, range_v6(seq![0x2002nat, 0xc000nat], seq![], 40))) by {
        reveal_strlit("2002:c000::/40");
        decimal_2(40);
        hex_4(0x2002);
        hex_4(0xc000);
        groups_2(0x2002, 0xc000);
        assert("2002:c000::/40"@ =~= v6_text(seq![0x2002nat, 0xc000nat], seq![]) + slash_text(40));
        spelled_v6("2002:c000::/40"@, seq![0x2002nat, 0xc000nat], seq![], 40);
    }
    assert(spells("2002:c000:200::/40"@, range_v6(seq![0x2002nat, 0xc000nat, 0x200nat], seq![], 40))) by {
        reveal_strlit("2002:c000:200::/40");
        decimal_2(40);
        hex_4(0x2002);
        hex_4(0xc000);
        hex_3(0x200);
        groups_3(0x2002, 0xc000, 0x200);
        assert("2002:c000:200::/40"@ =~= v6_text(seq![0x2002nat, 0xc000nat, 0x200nat], seq![]) + slash_text(40));
        spelled_v6("2002:c000:200::/40"@, seq![0x2002nat, 0xc000nat, 0x200nat], seq![], 40);
    }
    assert(spells("2002:c0a8::/32"@, range_v6(seq![0x2002nat, 0xc0a8nat], seq![], 32))) by {
        reveal_strlit("2002:c0a8::/32");
        decimal_2(32);
        hex_4(0x2002);
        hex_4(0xc0a8);
        groups_2(0x2002, 0xc0a8);
        assert("2002:c0a8::/32"@ =~= v6_text(seq![0x2002nat, 0xc0a8nat], seq![]) + slash_text(32));
        spelled_v6("2002:c0a8::/32"@, seq![0x2002nat, 0xc0a8nat], seq![], 32);
    }
    assert(spells("2002:c612::/31"@, range_v6(seq![0x2002nat, 0xc612nat], seq![], 31))) by {
        reveal_strlit("2002:c612::/31");
        decimal_2(31);
        hex_4(0x2002);
        hex_4(0xc612);
        groups_2(0x2002, 0xc612);
        assert("2002:c612::/31"@ =~= v6_text(seq![0x2002nat, 0xc612nat], seq![]) + slash_text(31));
        spelled_v6("2002:c612::/31"@, seq![0x2002nat, 0xc612nat], seq![], 31);
    }
    assert(spells("2002:c633:6400::/40"@, range_v6(seq![0x2002nat, 0xc633nat, 0x6400nat], seq![], 40))) by {
        reveal_strlit("2002:c633:6400::/40");
        decimal_2(40);
        hex_4(0x2002);
        hex_4(0xc633);
        hex_4(0x6400);
        groups_3(0x2002, 0xc633, 0x6400);
        assert("2002:c633:6400::/40"@ =~= v6_text(seq![0x2002nat, 0xc633nat, 0x6400nat], seq![]) + slash_text(40));
        spelled_v6("2002:c633:6400::/40"@, seq![0x2002nat, 0xc633nat, 0x6400nat], seq![], 40);
    }
    assert(spells("2002:cb00:7100::/40"@, range_v6(seq![0x2002nat, 0xcb00nat, 0x7100nat], seq![], 40))) by {
        reveal_strlit("2002:cb00:7100::/40");
        decimal_2(40);
        hex_4(0x2002);
        hex_4(0xcb00);
        hex_4(0x7100);
        groups_3(0x2002, 0xcb00, 0x7100);
        assert("2002:cb00:7100::/40"@ =~= v6_text(seq![0x2002nat, 0xcb00nat, 0x7100nat], seq![]) + slash_text(40));
        spelled_v6("2002:cb00:7100::/40"@, seq![0x2002nat, 0xcb00nat, 0x7100nat], seq![], 40);
    }
    assert(spells("2002:e000::/20"@, range_v6(seq![0x2002nat, 0xe000nat], seq![], 20))) by {
        reveal_strlit("2002:e000::/20");
        decimal_2(20);
        hex_4(0x2002);
        hex_4(0xe000);
        groups_2(0x2002, 0xe000);
        assert("2002:e000::/20"@ =~= v6_text(seq![0x2002nat, 0xe000nat], seq![]) + slash_text(20));
        spelled_v6("2002:e000::/20"@, seq![0x2002nat, 0xe000nat], seq![], 20);
    }
    assert(spells("2002:f000::/20"@, range_v6(seq![0x2002nat, 0xf000nat], seq![], 20))) by {
        reveal_strlit("2002:f000::/20");
        decimal_2(20);
        hex_4(0x2002);
        hex_4(0xf000);
        groups_2(0x2002, 0xf000);
        assert("2002:f000::/20"@ =~= v6_text(seq![0x2002nat, 0xf000nat], seq![]) + slash_text(20));
        spelled_v6("2002:f000::/20"@, seq![0x2002nat, 0xf000nat], seq![], 20);
    }
    assert(spells("2002:ffff:ffff::/48"@, range_v6(seq![0x2002nat, 0xffffnat, 0xffffnat], seq![], 48))) by {
        reveal_strlit("2002:ffff:ffff::/48");
        decimal_2(48);
        hex_4(0x2002);
        hex_4(0xffff);
        groups_3(0x2002, 0xffff, 0xffff);
        assert("2002:ffff:ffff::/48"@ =~= v6_text(seq![0x2002nat, 0xffffnat, 0xffffnat], seq![]) + slash_text(48));
        spelled_v6("2002:ffff:ffff::/48"@, seq![0x2002nat, 0xffffnat, 0xffffnat], seq![], 48);
    }
}

pub(crate) proof fn table_v6_teredo()
    ensures
        forall|i: int| 25 <= i < 39 ==> spells(#[trigger] BOGON_V6@[i]@, ranges_v6()[i]),
{
    assert(spells("2001::/40"@, range_v6(seq![0x2001nat], seq![], 40))) by {
        reveal_strlit("2001::/40");
        decimal_2(40);
        hex_4(0x2001);
        groups_1(0x2001);
        assert("2001::/40"@ =~= v6_text(seq![0x2001nat], seq![]) + slash_text(40));
        spelled_v6("2001::/40"@, seq![0x2001nat], seq![], 40);
    }
    assert(spells("2001:0:a00::/40"@, range_v6(seq![0x2001nat, 0x0nat, 0xa00nat], seq![], 40))) by {
        reveal_strlit("2001:0:a00::/40");
        decimal_2(40);
        hex_4(0x2001);
        hex_1(0x0);
        hex_3(0xa00);
        groups_3(0x2001, 0x0, 0xa00);
        assert("2001:0:a00::/40"@ =~= v6_text(seq![0x2001nat, 0x0nat, 0xa00nat], seq![]) + slash_text(40));
        spelled_v6("2001:0:a00::/40"@, seq![0x2001nat, 0x0nat, 0xa00nat], seq![], 40);
    }
    assert(spells("2001:0:7f00::/40"@, range_v6(seq![0x2001nat, 0x0nat, 0x7f00nat], seq![], 40))) by {
        reveal_strlit("2001:0:7f00::/40");
        decimal_2(40);
        hex_4(0x2001);
        hex_1(0x0);
        hex_4(0x7f00);
        groups_3(0x2001, 0x0, 0x7f00);
        assert("2001:0:7f00::/40"@ =~= v6_text(seq![0x2001nat, 0x0nat, 0x7f00nat], seq![]) + slash_text(40));
        spelled_v6("2001:0:7f00::/40"@, seq![0x2001nat, 0x0nat, 0x7f00nat], seq![], 40);
    }
    assert(spells("2001:0:a9fe::/48"@, range_v6(seq![0x2001nat, 0x0nat, 0xa9fenat], seq![], 48))) by {
        reveal_strlit("2001:0:a9fe::/48");
        decimal_2(48);
        hex_4(0x2001);
        hex_1(0x0);
        hex_4(0xa9fe);
        groups_3(0x2001, 0x0, 0xa9fe);
        assert("2001:0:a9fe::/48"@ =~= v6_text(seq![0x2001nat, 0x0nat, 0xa9fenat], seq![]) + slash_text(48));
        spelled_v6("2001:0:a9fe::/48"@, seq![0x2001nat, 0x0nat, 0xa9fenat], seq![], 48);
    }
    assert(spells("2001:0:ac10::/44"@, range_v6(seq![0x2001nat, 0x0nat, 0xac10nat], seq![], 44))) by {
        reveal_strlit("2001:0:ac10::/44");
        decimal_2(44);
        hex_4(0x2001);
        hex_1(0x0);
        hex_4(0xac10);
        groups_3(0x2001, 0x0, 0xac10);
        assert("2001:0:ac10::/44"@ =~= v6_text(seq![0x2001nat, 0x0nat, 0xac10nat], seq![]) + slash_text(44));
        spelled_v6("2001:0:ac10::/44"@, seq![0x2001nat, 0x0nat, 0xac10nat], seq![], 44);
    }
    assert(spells("2001:0:c000::/56"@, range_v6(seq![0x2001nat, 0x0nat, 0xc000nat], seq![], 56))) by {
        reveal_strlit("2001:0:c000::/56");
        decimal_2(56);
        hex_4(0x2001);
        hex_1(0x0);
        hex_4(0xc000);
        groups_3(0x2001, 0x0, 0xc000);
        assert("2001:0:c000::/56"@ =~= v6_text(seq![0x2001nat, 0x0nat, 0xc000nat], seq![]) + slash_text(56));
        spelled_v6("2001:0:c000::/56"@, seq![0x2001nat, 0x0nat, 0xc000nat], seq![], 56);
    }
    assert(spells("2001:0:c000:200::/56"@, range_v6(seq![0x2001nat, 0x0nat, 0xc000nat, 0x200nat], seq![], 56))) by {
        reveal_strlit("2001:0:c000:200::/56");
        decimal_2(56);
        hex_4(0x2001);
        hex_1(0x0);
        hex_4(0xc000);
        hex_3(0x200);
        groups_4(0x2001, 0x0, 0xc000, 0x200);
        assert("2001:0:c000:200::/56"@ =~= v6_text(seq![0x2001nat, 0x0nat, 0xc000nat, 0x200nat], seq![]) + slash_text(56));
        spelled_v6("2001:0:c000:200::/56"@, seq![0x2001nat, 0x0nat, 0xc000nat, 0x200nat], seq![], 56);
    }
    assert(spells("2001:0:c0a8::/48"@, range_v6(seq![0x2001nat, 0x0nat, 0xc0a8nat], seq![], 48))) by {
        reveal_strlit("2001:0:c0a8::/48");
        decimal_2(48);
        hex_4(0x2001);
        hex_1(0x0);
        hex_4(0xc0a8);
        groups_3(0x2001, 0x0, 0xc0a8);
        assert("2001:0:c0a8::/48"@ =~= v6_text(seq![0x2001nat, 0x0nat, 0xc0a8nat], seq![]) + slash_text(48));
        spelled_v6("2001:0:c0a8::/48"@, seq![0x2001nat, 0x0nat, 0xc0a8nat], seq![], 48);
    }
    assert(spells("2001:0:c612::/47"@, range_v6(seq![0x2001nat, 0x0nat, 0xc612nat], seq![], 47))) by {
        reveal_strlit("2001:0:c612::/47");
        decimal_2(47);
        hex_4(0x2001);
        hex_1(0x0);
        hex_4(0xc612);
        groups_3(0x2001, 0x0, 0xc612);
        assert("2001:0:c612::/47"@ =~= v6_text(seq![0x2001nat, 0x0nat, 0xc612nat], seq![]) + slash_text(47));
        spelled_v6("2001:0:c612::/47"@, seq![0x2001nat, 0x0nat, 0xc612nat], seq![], 47);
    }
    assert(spells("2001:0:c633:6400::/56"@, range_v6(seq![0x2001nat, 0x0nat, 0xc633nat, 0x6400nat], seq![], 56))) by {
        reveal_strlit("2001:0:c633:6400::/56");
        decimal_2(56);
        hex_4(0x2001);
        hex_1(0x0);
        hex_4(0xc633);
        hex_4(0x6400);
        groups_4(0x2001, 0x0, 0xc633, 0x6400);
        assert("2001:0:c633:6400::/56"@ =~= v6_text(seq![0x2001nat, 0x0nat, 0xc633nat, 0x6400nat], seq![]) + slash_text(56));
        spelled_v6("2001:0:c633:6400::/56"@, seq![0x2001nat, 0x0nat, 0xc633nat, 0x6400nat], seq![], 56);
    }
    assert(spells("2001:0:cb00:7100::/56"@, range_v6(seq![0x2001nat, 0x0nat, 0xcb00nat, 0x7100nat], seq![], 56))) by {
        reveal_strlit("2001:0:cb00:7100::/56");
        decimal_2(56);
        hex_4(0x2001);
        hex_1(0x0);
        hex_4(0xcb00);
        hex_4(0x7100);
        groups_4(0x2001, 0x0, 0xcb00, 0x7100);
        assert("2001:0:cb00:7100::/56"@ =~= v6_text(seq![0x2001nat, 0x0nat, 0xcb00nat, 0x7100nat], seq![]) + slash_text(56));
        spelled_v6("2001:0:cb00:7100::/56"@, seq![0x2001nat, 0x0nat, 0xcb00nat, 0x7100nat], seq![], 56);
    }
    assert(spells("2001:0:e000::/36"@, range_v6(seq![0x2001nat, 0x0nat, 0xe000nat], seq![], 36))) by {
        reveal_strlit("2001:0:e000::/36");
        decimal_2(36);
        hex_4(0x2001);
        hex_1(0x0);
        hex_4(0xe000);
        groups_3(0x2001, 0x0, 0xe000);
        assert("2001:0:e000::/36"@ =~= v6_text(seq![0x2001nat, 0x0nat, 0xe000nat], seq![]) + slash_text(36));
        spelled_v6("2001:0:e000::/36"@, seq![0x2001nat, 0x0nat, 0xe000nat], seq![], 36);
    }
    assert(spells("2001:0:f000::/36"@, range_v6(seq![0x2001nat, 0x0nat, 0xf000nat], seq![], 36))) by {
        reveal_strlit("2001:0:f000::/36");
        decimal_2(36);
        hex_4(0x2001);
        hex_1(0x0);
        hex_4(0xf000);
        groups_3(0x2001, 0x0, 0xf000);
        assert("2001:0:f000::/36"@ =~= v6_text(seq![0x2001nat, 0x0nat, 0xf000nat], seq![]) + slash_text(36));
        spelled_v6("2001:0:f000::/36"@, seq![0x2001nat, 0x0nat, 0xf000nat], seq![], 36);
    }
    assert(spells("2001:0:ffff:ffff::/64"@, range_v6(seq![0x2001nat, 0x0nat, 0xffffnat, 0xffffnat], seq![], 64))) by {
        reveal_strlit("2001:0:ffff:ffff::/64");
        decimal_2(64);
        hex_4(0x2001);
        hex_1(0x0);
        hex_4(0xffff);
        groups_4(0x2001, 0x0, 0xffff, 0xffff);
        assert("2001:0:ffff:ffff::/64"@ =~= v6_text(seq![0x2001nat, 0x0nat, 0xffffnat, 0xffffnat], seq![]) + slash_text(64));
        spelled_v6("2001:0:ffff:ffff::/64"@, seq![0x2001nat, 0x0nat, 0xffffnat, 0xffffnat], seq![], 64);
    }
}

proof fn decimal_1(n: nat)
    requires
        n < 10,
    ensures
        decimal_text(n) == seq![digit(n as int)],
{
}

proof fn decimal_2(n: nat)
    requires
        10 <= n < 100,
    ensures
        decimal_text(n) == seq![digit((n / 10) as int), digit((n % 10) as int)],
{
    decimal_1(n / 10);
    assert(decimal_text(n) =~= seq![digit((n / 10) as int), digit((n % 10) as int)]);
}

proof fn decimal_3(n: nat)
    requires
        100 <= n < 1000,
    ensures
        decimal_text(n) == seq![
            digit((n / 100) as int),
            digit((n / 10 % 10) as int),
            digit((n % 10) as int),
        ],
{
    decimal_2(n / 10);
    assert(decimal_text(n) =~= seq![
        digit((n / 100) as int),
        digit((n / 10 % 10) as int),
        digit((n % 10) as int),
    ]);
}

proof fn spelled_v4(text: Seq<char>, a: nat, b: nat, c: nat, d: nat, len: nat)
    requires
        octets(a, b, c, d),
        len <= 32,
        text == v4_text(a, b, c, d) + slash_text(len),
    ensures
        spells(text, range_v4(a, b, c, d, len)),
{
    reveal(spells);
}

proof fn spelled_v6(text: Seq<char>, head: Seq<nat>, tail: Seq<nat>, len: nat)
    requires
        groups(head, tail),
        len <= 128,
        text == v6_text(head, tail) + slash_text(len),
    ensures
        spells(text, range_v6(head, tail, len)),
{
    reveal(spells);
}

proof fn hex_1(n: nat)
    requires
        n < 0x10,
    ensures
        hex_text(n) == seq![hex_digit(n as int)],
{
}

proof fn hex_2(n: nat)
    requires
        0x10 <= n < 0x100,
    ensures
        hex_text(n) == seq![hex_digit((n / 16) as int), hex_digit((n % 16) as int)],
{
    hex_1(n / 16);
    assert(hex_text(n) =~= seq![hex_digit((n / 16) as int), hex_digit((n % 16) as int)]);
}

proof fn hex_3(n: nat)
    requires
        0x100 <= n < 0x1000,
    ensures
        hex_text(n) == seq![
            hex_digit((n / 256) as int),
            hex_digit((n / 16 % 16) as int),
            hex_digit((n % 16) as int),
        ],
{
    hex_2(n / 16);
    assert(hex_text(n) =~= seq![
        hex_digit((n / 256) as int),
        hex_digit((n / 16 % 16) as int),
        hex_digit((n % 16) as int),
    ]);
}

proof fn hex_4(n: nat)
    requires
        0x1000 <= n < 0x1_0000,
    ensures
        hex_text(n) == seq![
            hex_digit((n / 4096) as int),
            hex_digit((n / 256 % 16) as int),
            hex_digit((n / 16 % 16) as int),
            hex_digit((n % 16) as int),
        ],
{
    hex_3(n / 16);
    assert(hex_text(n) =~= seq![
        hex_digit((n / 4096) as int),
        hex_digit((n / 256 % 16) as int),
        hex_digit((n / 16 % 16) as int),
        hex_digit((n % 16) as int),
    ]);
}

proof fn groups_1(a: nat)
    ensures
        groups_text(seq![a]) == hex_text(a),
{
}

proof fn groups_2(a: nat, b: nat)
    ensures
        groups_text(seq![a, b]) == hex_text(a) + seq![':'] + hex_text(b),
{
    groups_1(a);
    assert(seq![a, b].drop_last() =~= seq![a]);
}

proof fn groups_3(a: nat, b: nat, c: nat)
    ensures
        groups_text(seq![a, b, c]) == hex_text(a) + seq![':'] + hex_text(b) + seq![':']
            + hex_text(c),
{
    groups_2(a, b);
    assert(seq![a, b, c].drop_last() =~= seq![a, b]);
}

proof fn groups_4(a: nat, b: nat, c: nat, d: nat)
    ensures
        groups_text(seq![a, b, c, d]) == hex_text(a) + seq![':'] + hex_text(b) + seq![':']
            + hex_text(c) + seq![':'] + hex_text(d),
{
    groups_3(a, b, c);
    assert(seq![a, b, c, d].drop_last() =~= seq![a, b, c]);
}

}
