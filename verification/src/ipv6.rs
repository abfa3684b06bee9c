//! Which IPv6 addresses are bogons, group by group.

use vstd::arithmetic::power2::pow2;
use vstd::prelude::*;

use crate::address::{expanded, groups_value, octets, Address, Prefix};
use crate::bogon::{bogon_address, bogon_octets, ranges};
use crate::bogons::ranges_v6;

verus! {

/// The number the upper half of an IPv6 address spells.
pub open spec fn upper(groups: Seq<nat>) -> nat {
    groups[0] * 0x1_0000_0000_0000 + groups[1] * 0x1_0000_0000 + groups[2] * 0x1_0000 + groups[3]
}

/// Eight sixteen-bit groups.
pub open spec fn eight(groups: Seq<nat>) -> bool {
    groups.len() == 8 && forall|i: int| 0 <= i < 8 ==> #[trigger] groups[i] < 0x1_0000
}

/// The address that eight groups spell.
pub open spec fn v6_address(groups: Seq<nat>) -> Address {
    Address::V6(groups_value(groups) as u128)
}

/// The first octet of a pair, and the second.
pub open spec fn octet_pair(high: nat, low: nat) -> nat {
    high * 256 + low
}

proof fn value_of(groups: Seq<nat>)
    requires
        eight(groups),
    ensures
        groups_value(groups) <= u128::MAX,
        groups_value(groups) / 0x1_0000_0000_0000_0000 == upper(groups),
{
    let g = groups;
    reveal_with_fuel(groups_value, 9);
    assert(g.drop_last().drop_last().drop_last().drop_last() =~= g.take(4));
    let low = ((g[4] * 0x1_0000 + g[5]) * 0x1_0000 + g[6]) * 0x1_0000 + g[7];
    let high = upper(g);
    assert(groups_value(g.take(4)) == high) by {
        assert(g.take(4).drop_last() =~= g.take(3));
        assert(g.take(3).drop_last() =~= g.take(2));
        assert(g.take(2).drop_last() =~= g.take(1));
        assert(g.take(1).drop_last() =~= g.take(0));
    }
    assert(g.drop_last() =~= g.take(7));
    assert(g.take(7).drop_last() =~= g.take(6));
    assert(g.take(6).drop_last() =~= g.take(5));
    assert(g.take(5).drop_last() =~= g.take(4));
    assert(groups_value(g) == high * 0x1_0000_0000_0000_0000 + low);
    assert(low < 0x1_0000_0000_0000_0000);
}

/// A range of at most so many bits holds an address by its upper half.
proof fn held_by_upper(groups: Seq<nat>, len: nat, other: Seq<nat>, size: nat)
    requires
        eight(groups),
        eight(other),
        len <= 64,
        size == pow2((64 - len) as nat),
    ensures
        (Prefix::V6 { address: groups_value(groups) as u128, len: len as u8 }).holds(
            v6_address(other),
        ) == (upper(groups) / size == upper(other) / size),
{
    let a = groups_value(groups);
    let b = groups_value(other);
    value_of(groups);
    value_of(other);
    vstd::arithmetic::power2::lemma2_to64();
    vstd::arithmetic::power2::lemma_pow2_adds(64, (64 - len) as nat);
    vstd::arithmetic::power2::lemma_pow2_pos((64 - len) as nat);
    assert(64 + (64 - len) as nat == (128 - len) as nat);
    vstd::arithmetic::div_mod::lemma_div_denominator(a as int, pow2(64) as int, size as int);
    vstd::arithmetic::div_mod::lemma_div_denominator(b as int, pow2(64) as int, size as int);
}

/// A longer range holds only addresses that share its upper half.
proof fn held_shares_upper(groups: Seq<nat>, len: nat, other: Seq<nat>)
    requires
        eight(groups),
        eight(other),
        64 <= len <= 128,
    ensures
        (Prefix::V6 { address: groups_value(groups) as u128, len: len as u8 }).holds(
            v6_address(other),
        ) ==> upper(groups) == upper(other),
{
    let a = groups_value(groups);
    let b = groups_value(other);
    let size = pow2((128 - len) as nat);
    value_of(groups);
    value_of(other);
    vstd::arithmetic::power2::lemma2_to64();
    vstd::arithmetic::power2::lemma_pow2_pos((128 - len) as nat);
    vstd::arithmetic::power2::lemma_pow2_pos((len - 64) as nat);
    vstd::arithmetic::power2::lemma_pow2_adds((128 - len) as nat, (len - 64) as nat);
    vstd::arithmetic::div_mod::lemma_div_denominator(
        a as int,
        size as int,
        pow2((len - 64) as nat) as int,
    );
    vstd::arithmetic::div_mod::lemma_div_denominator(
        b as int,
        size as int,
        pow2((len - 64) as nat) as int,
    );
}

proof fn sixtofour_1(g: Seq<nat>, a: nat, b: nat, c: nat, d: nat)
    requires
        eight(g),
        octets(a, b, c, d),
        g[0] == 0x2002,
        g[1] == octet_pair(a, b),
        g[2] == octet_pair(c, d),
    ensures
        ranges_v6()[0].holds(v6_address(g)) == (false),
        ranges_v6()[1].holds(v6_address(g)) == (false),
        ranges_v6()[2].holds(v6_address(g)) == (false),
        ranges_v6()[3].holds(v6_address(g)) == (false),
        ranges_v6()[4].holds(v6_address(g)) == (false),
        ranges_v6()[5].holds(v6_address(g)) == (false),
        ranges_v6()[6].holds(v6_address(g)) == (false),
        ranges_v6()[7].holds(v6_address(g)) == (false),
        ranges_v6()[8].holds(v6_address(g)) == (false),
        ranges_v6()[9].holds(v6_address(g)) == (false),
        ranges_v6()[10].holds(v6_address(g)) == (false),
{
    vstd::arithmetic::power2::lemma2_to64();
    vstd::arithmetic::power2::lemma2_to64_rest();
    let t = upper(g);
    assert(t / 0x1_0000_0000_0000 == 0x2002);
    assert(t / 0x1000_0000_0000 == 0x2002 * 16 + a / 16);
    assert(t / 0x100_0000_0000 == 0x2002 * 256 + a);
    assert(t / 0x10_0000_0000 == 0x2002 * 0x1000 + a * 16 + b / 16);
    assert(t / 0x2_0000_0000 == 0x2002 * 0x8000 + a * 128 + b / 2);
    assert(t / 0x1_0000_0000 == 0x2002 * 0x1_0000 + a * 256 + b);
    assert(t / 0x100_0000 == 0x2002 * 0x100_0000 + a * 0x1_0000 + b * 256 + c);
    assert(t / 0x1_0000 == 0x2002 * 0x1_0000_0000 + a * 0x100_0000 + b * 0x1_0000 + c * 256 + d);
    assert(expanded(seq![], seq![]) =~= seq![0x0nat, 0x0nat, 0x0nat, 0x0nat, 0x0nat, 0x0nat, 0x0nat, 0x0nat]);
    held_shares_upper(seq![0x0nat, 0x0nat, 0x0nat, 0x0nat, 0x0nat, 0x0nat, 0x0nat, 0x0nat], 128, g);
    assert(ranges_v6()[0].holds(v6_address(g)) == (false));
    assert(expanded(seq![], seq![0x1nat]) =~= seq![0x0nat, 0x0nat, 0x0nat, 0x0nat, 0x0nat, 0x0nat, 0x0nat, 0x1nat]);
    held_shares_upper(seq![0x0nat, 0x0nat, 0x0nat, 0x0nat, 0x0nat, 0x0nat, 0x0nat, 0x1nat], 128, g);
    assert(ranges_v6()[1].holds(v6_address(g)) == (false));
    assert(expanded(seq![], seq![0xffffnat, 0x0nat, 0x0nat]) =~= seq![0x0nat, 0x0nat, 0x0nat, 0x0nat, 0x0nat, 0xffffnat, 0x0nat, 0x0nat]);
    held_shares_upper(seq![0x0nat, 0x0nat, 0x0nat, 0x0nat, 0x0nat, 0xffffnat, 0x0nat, 0x0nat], 96, g);
    assert(ranges_v6()[2].holds(v6_address(g)) == (false));
    assert(expanded(seq![], seq![]) =~= seq![0x0nat, 0x0nat, 0x0nat, 0x0nat, 0x0nat, 0x0nat, 0x0nat, 0x0nat]);
    held_shares_upper(seq![0x0nat, 0x0nat, 0x0nat, 0x0nat, 0x0nat, 0x0nat, 0x0nat, 0x0nat], 96, g);
    assert(ranges_v6()[3].holds(v6_address(g)) == (false));
    assert(expanded(seq![0x100nat], seq![]) =~= seq![0x100nat, 0x0nat, 0x0nat, 0x0nat, 0x0nat, 0x0nat, 0x0nat, 0x0nat]);
    held_by_upper(seq![0x100nat, 0x0nat, 0x0nat, 0x0nat, 0x0nat, 0x0nat, 0x0nat, 0x0nat], 64, g, 0x1);
    assert(ranges_v6()[4].holds(v6_address(g)) == (false));
    assert(expanded(seq![0x2001nat, 0x10nat], seq![]) =~= seq![0x2001nat, 0x10nat, 0x0nat, 0x0nat, 0x0nat, 0x0nat, 0x0nat, 0x0nat]);
    held_by_upper(seq![0x2001nat, 0x10nat, 0x0nat, 0x0nat, 0x0nat, 0x0nat, 0x0nat, 0x0nat], 28, g, 0x1000000000);
    assert(ranges_v6()[5].holds(v6_address(g)) == (false));
    assert(expanded(seq![0x2001nat, 0xdb8nat], seq![]) =~= seq![0x2001nat, 0xdb8nat, 0x0nat, 0x0nat, 0x0nat, 0x0nat, 0x0nat, 0x0nat]);
    held_by_upper(seq![0x2001nat, 0xdb8nat, 0x0nat, 0x0nat, 0x0nat, 0x0nat, 0x0nat, 0x0nat], 32, g, 0x100000000);
    assert(ranges_v6()[6].holds(v6_address(g)) == (false));
    assert(expanded(seq![0xfc00nat], seq![]) =~= seq![0xfc00nat, 0x0nat, 0x0nat, 0x0nat, 0x0nat, 0x0nat, 0x0nat, 0x0nat]);
    held_by_upper(seq![0xfc00nat, 0x0nat, 0x0nat, 0x0nat, 0x0nat, 0x0nat, 0x0nat, 0x0nat], 7, g, 0x200000000000000);
    assert(ranges_v6()[7].holds(v6_address(g)) == (false));
    assert(expanded(seq![0xfe80nat], seq![]) =~= seq![0xfe80nat, 0x0nat, 0x0nat, 0x0nat, 0x0nat, 0x0nat, 0x0nat, 0x0nat]);
    held_by_upper(seq![0xfe80nat, 0x0nat, 0x0nat, 0x0nat, 0x0nat, 0x0nat, 0x0nat, 0x0nat], 10, g, 0x40000000000000);
    assert(ranges_v6()[8].holds(v6_address(g)) == (false));
    assert(expanded(seq![0xfec0nat], seq![]) =~= seq![0xfec0nat, 0x0nat, 0x0nat, 0x0nat, 0x0nat, 0x0nat, 0x0nat, 0x0nat]);
    held_by_upper(seq![0xfec0nat, 0x0nat, 0x0nat, 0x0nat, 0x0nat, 0x0nat, 0x0nat, 0x0nat], 10, g, 0x40000000000000);
    assert(ranges_v6()[9].holds(v6_address(g)) == (false));
    assert(expanded(seq![0xff00nat], seq![]) =~= seq![0xff00nat, 0x0nat, 0x0nat, 0x0nat, 0x0nat, 0x0nat, 0x0nat, 0x0nat]);
    held_by_upper(seq![0xff00nat, 0x0nat, 0x0nat, 0x0nat, 0x0nat, 0x0nat, 0x0nat, 0x0nat], 8, g, 0x100000000000000);
    assert(ranges_v6()[10].holds(v6_address(g)) == (false));
}

proof fn sixtofour_2(g: Seq<nat>, a: nat, b: nat, c: nat, d: nat)
    requires
        eight(g),
        octets(a, b, c, d),
        g[0] == 0x2002,
        g[1] == octet_pair(a, b),
        g[2] == octet_pair(c, d),
    ensures
        ranges_v6()[11].holds(v6_address(g)) == (a == 0),
        ranges_v6()[12].holds(v6_address(g)) == (a == 10),
        ranges_v6()[13].holds(v6_address(g)) == (a == 127),
        ranges_v6()[14].holds(v6_address(g)) == (a == 169 && b == 254),
        ranges_v6()[15].holds(v6_address(g)) == (a == 172 && 16 <= b < 32),
        ranges_v6()[16].holds(v6_address(g)) == (a == 192 && b == 0 && c == 0),
        ranges_v6()[17].holds(v6_address(g)) == (a == 192 && b == 0 && c == 2),
{
    vstd::arithmetic::power2::lemma2_to64();
    vstd::arithmetic::power2::lemma2_to64_rest();
    let t = upper(g);
    assert(t / 0x1_0000_0000_0000 == 0x2002);
    assert(t / 0x1000_0000_0000 == 0x2002 * 16 + a / 16);
    assert(t / 0x100_0000_0000 == 0x2002 * 256 + a);
    assert(t / 0x10_0000_0000 == 0x2002 * 0x1000 + a * 16 + b / 16);
    assert(t / 0x2_0000_0000 == 0x2002 * 0x8000 + a * 128 + b / 2);
    assert(t / 0x1_0000_0000 == 0x2002 * 0x1_0000 + a * 256 + b);
    assert(t / 0x100_0000 == 0x2002 * 0x100_0000 + a * 0x1_0000 + b * 256 + c);
    assert(t / 0x1_0000 == 0x2002 * 0x1_0000_0000 + a * 0x100_0000 + b * 0x1_0000 + c * 256 + d);
    assert(expanded(seq![0x2002nat], seq![]) =~= seq![0x2002nat, 0x0nat, 0x0nat, 0x0nat, 0x0nat, 0x0nat, 0x0nat, 0x0nat]);
    held_by_upper(seq![0x2002nat, 0x0nat, 0x0nat, 0x0nat, 0x0nat, 0x0nat, 0x0nat, 0x0nat], 24, g, 0x10000000000);
    assert(ranges_v6()[11].holds(v6_address(g)) == (a == 0));
    assert(expanded(seq![0x2002nat, 0xa00nat], seq![]) =~= seq![0x2002nat, 0xa00nat, 0x0nat, 0x0nat, 0x0nat, 0x0nat, 0x0nat, 0x0nat]);
    held_by_upper(seq![0x2002nat, 0xa00nat, 0x0nat, 0x0nat, 0x0nat, 0x0nat, 0x0nat, 0x0nat], 24, g, 0x10000000000);
    assert(ranges_v6()[12].holds(v6_address(g)) == (a == 10));
    assert(expanded(seq![0x2002nat, 0x7f00nat], seq![]) =~= seq![0x2002nat, 0x7f00nat, 0x0nat, 0x0nat, 0x0nat, 0x0nat, 0x0nat, 0x0nat]);
    held_by_upper(seq![0x2002nat, 0x7f00nat, 0x0nat, 0x0nat, 0x0nat, 0x0nat, 0x0nat, 0x0nat], 24, g, 0x10000000000);
    assert(ranges_v6()[13].holds(v6_address(g)) == (a == 127));
    assert(expanded(seq![0x2002nat, 0xa9fenat], seq![]) =~= seq![0x2002nat, 0xa9fenat, 0x0nat, 0x0nat, 0x0nat, 0x0nat, 0x0nat, 0x0nat]);
    held_by_upper(seq![0x2002nat, 0xa9fenat, 0x0nat, 0x0nat, 0x0nat, 0x0nat, 0x0nat, 0x0nat], 32, g, 0x100000000);
    assert(ranges_v6()[14].holds(v6_address(g)) == (a == 169 && b == 254));
    assert(expanded(seq![0x2002nat, 0xac10nat], seq![]) =~= seq![0x2002nat, 0xac10nat, 0x0nat, 0x0nat, 0x0nat, 0x0nat, 0x0nat, 0x0nat]);
    held_by_upper(seq![0x2002nat, 0xac10nat, 0x0nat, 0x0nat, 0x0nat, 0x0nat, 0x0nat, 0x0nat], 28, g, 0x1000000000);
    assert(ranges_v6()[15].holds(v6_address(g)) == (a == 172 && 16 <= b < 32));
    assert(expanded(seq![0x2002nat, 0xc000nat], seq![]) =~= seq![0x2002nat, 0xc000nat, 0x0nat, 0x0nat, 0x0nat, 0x0nat, 0x0nat, 0x0nat]);
    held_by_upper(seq![0x2002nat, 0xc000nat, 0x0nat, 0x0nat, 0x0nat, 0x0nat, 0x0nat, 0x0nat], 40, g, 0x1000000);
    assert(ranges_v6()[16].holds(v6_address(g)) == (a == 192 && b == 0 && c == 0));
    assert(expanded(seq![0x2002nat, 0xc000nat, 0x200nat], seq![]) =~= seq![0x2002nat, 0xc000nat, 0x200nat, 0x0nat, 0x0nat, 0x0nat, 0x0nat, 0x0nat]);
    held_by_upper(seq![0x2002nat, 0xc000nat, 0x200nat, 0x0nat, 0x0nat, 0x0nat, 0x0nat, 0x0nat], 40, g, 0x1000000);
    assert(ranges_v6()[17].holds(v6_address(g)) == (a == 192 && b == 0 && c == 2));
}

proof fn sixtofour_3(g: Seq<nat>, a: nat, b: nat, c: nat, d: nat)
    requires
        eight(g),
        octets(a, b, c, d),
        g[0] == 0x2002,
        g[1] == octet_pair(a, b),
        g[2] == octet_pair(c, d),
    ensures
        ranges_v6()[18].holds(v6_address(g)) == (a == 192 && b == 168),
        ranges_v6()[19].holds(v6_address(g)) == (a == 198 && (b == 18 || b == 19)),
        ranges_v6()[20].holds(v6_address(g)) == (a == 198 && b == 51 && c == 100),
        ranges_v6()[21].holds(v6_address(g)) == (a == 203 && b == 0 && c == 113),
        ranges_v6()[22].holds(v6_address(g)) == (224 <= a < 240),
        ranges_v6()[23].holds(v6_address(g)) == (240 <= a),
        ranges_v6()[24].holds(v6_address(g)) == (a == 255 && b == 255 && c == 255 && d == 255),
{
    vstd::arithmetic::power2::lemma2_to64();
    vstd::arithmetic::power2::lemma2_to64_rest();
    let t = upper(g);
    assert(t / 0x1_0000_0000_0000 == 0x2002);
    assert(t / 0x1000_0000_0000 == 0x2002 * 16 + a / 16);
    assert(t / 0x100_0000_0000 == 0x2002 * 256 + a);
    assert(t / 0x10_0000_0000 == 0x2002 * 0x1000 + a * 16 + b / 16);
    assert(t / 0x2_0000_0000 == 0x2002 * 0x8000 + a * 128 + b / 2);
    assert(t / 0x1_0000_0000 == 0x2002 * 0x1_0000 + a * 256 + b);
    assert(t / 0x100_0000 == 0x2002 * 0x100_0000 + a * 0x1_0000 + b * 256 + c);
    assert(t / 0x1_0000 == 0x2002 * 0x1_0000_0000 + a * 0x100_0000 + b * 0x1_0000 + c * 256 + d);
    assert(expanded(seq![0x2002nat, 0xc0a8nat], seq![]) =~= seq![0x2002nat, 0xc0a8nat, 0x0nat, 0x0nat, 0x0nat, 0x0nat, 0x0nat, 0x0nat]);
    held_by_upper(seq![0x2002nat, 0xc0a8nat, 0x0nat, 0x0nat, 0x0nat, 0x0nat, 0x0nat, 0x0nat], 32, g, 0x100000000);
    assert(ranges_v6()[18].holds(v6_address(g)) == (a == 192 && b == 168));
    assert(expanded(seq![0x2002nat, 0xc612nat], seq![]) =~= seq![0x2002nat, 0xc612nat, 0x0nat, 0x0nat, 0x0nat, 0x0nat, 0x0nat, 0x0nat]);
    held_by_upper(seq![0x2002nat, 0xc612nat, 0x0nat, 0x0nat, 0x0nat, 0x0nat, 0x0nat, 0x0nat], 31, g, 0x200000000);
    assert(ranges_v6()[19].holds(v6_address(g)) == (a == 198 && (b == 18 || b == 19)));
    assert(expanded(seq![0x2002nat, 0xc633nat, 0x6400nat], seq![]) =~= seq![0x2002nat, 0xc633nat, 0x6400nat, 0x0nat, 0x0nat, 0x0nat, 0x0nat, 0x0nat]);
    held_by_upper(seq![0x2002nat, 0xc633nat, 0x6400nat, 0x0nat, 0x0nat, 0x0nat, 0x0nat, 0x0nat], 40, g, 0x1000000);
    assert(ranges_v6()[20].holds(v6_address(g)) == (a == 198 && b == 51 && c == 100));
    assert(expanded(seq![0x2002nat, 0xcb00nat, 0x7100nat], seq![]) =~= seq![0x2002nat, 0xcb00nat, 0x7100nat, 0x0nat, 0x0nat, 0x0nat, 0x0nat, 0x0nat]);
    held_by_upper(seq![0x2002nat, 0xcb00nat, 0x7100nat, 0x0nat, 0x0nat, 0x0nat, 0x0nat, 0x0nat], 40, g, 0x1000000);
    assert(ranges_v6()[21].holds(v6_address(g)) == (a == 203 && b == 0 && c == 113));
    assert(expanded(seq![0x2002nat, 0xe000nat], seq![]) =~= seq![0x2002nat, 0xe000nat, 0x0nat, 0x0nat, 0x0nat, 0x0nat, 0x0nat, 0x0nat]);
    held_by_upper(seq![0x2002nat, 0xe000nat, 0x0nat, 0x0nat, 0x0nat, 0x0nat, 0x0nat, 0x0nat], 20, g, 0x100000000000);
    assert(ranges_v6()[22].holds(v6_address(g)) == (224 <= a < 240));
    assert(expanded(seq![0x2002nat, 0xf000nat], seq![]) =~= seq![0x2002nat, 0xf000nat, 0x0nat, 0x0nat, 0x0nat, 0x0nat, 0x0nat, 0x0nat]);
    held_by_upper(seq![0x2002nat, 0xf000nat, 0x0nat, 0x0nat, 0x0nat, 0x0nat, 0x0nat, 0x0nat], 20, g, 0x100000000000);
    assert(ranges_v6()[23].holds(v6_address(g)) == (240 <= a));
    assert(expanded(seq![0x2002nat, 0xffffnat, 0xffffnat], seq![]) =~= seq![0x2002nat, 0xffffnat, 0xffffnat, 0x0nat, 0x0nat, 0x0nat, 0x0nat, 0x0nat]);
    held_by_upper(seq![0x2002nat, 0xffffnat, 0xffffnat, 0x0nat, 0x0nat, 0x0nat, 0x0nat, 0x0nat], 48, g, 0x10000);
    assert(ranges_v6()[24].holds(v6_address(g)) == (a == 255 && b == 255 && c == 255 && d == 255));
}

proof fn sixtofour_4(g: Seq<nat>, a: nat, b: nat, c: nat, d: nat)
    requires
        eight(g),
        octets(a, b, c, d),
        g[0] == 0x2002,
        g[1] == octet_pair(a, b),
        g[2] == octet_pair(c, d),
    ensures
        ranges_v6()[25].holds(v6_address(g)) == (false),
        ranges_v6()[26].holds(v6_address(g)) == (false),
        ranges_v6()[27].holds(v6_address(g)) == (false),
        ranges_v6()[28].holds(v6_address(g)) == (false),
        ranges_v6()[29].holds(v6_address(g)) == (false),
        ranges_v6()[30].holds(v6_address(g)) == (false),
        ranges_v6()[31].holds(v6_address(g)) == (false),
{
    vstd::arithmetic::power2::lemma2_to64();
    vstd::arithmetic::power2::lemma2_to64_rest();
    let t = upper(g);
    assert(t / 0x1_0000_0000_0000 == 0x2002);
    assert(t / 0x1000_0000_0000 == 0x2002 * 16 + a / 16);
    assert(t / 0x100_0000_0000 == 0x2002 * 256 + a);
    assert(t / 0x10_0000_0000 == 0x2002 * 0x1000 + a * 16 + b / 16);
    assert(t / 0x2_0000_0000 == 0x2002 * 0x8000 + a * 128 + b / 2);
    assert(t / 0x1_0000_0000 == 0x2002 * 0x1_0000 + a * 256 + b);
    assert(t / 0x100_0000 == 0x2002 * 0x100_0000 + a * 0x1_0000 + b * 256 + c);
    assert(t / 0x1_0000 == 0x2002 * 0x1_0000_0000 + a * 0x100_0000 + b * 0x1_0000 + c * 256 + d);
    assert(expanded(seq![0x2001nat], seq![]) =~= seq![0x2001nat, 0x0nat, 0x0nat, 0x0nat, 0x0nat, 0x0nat, 0x0nat, 0x0nat]);
    held_by_upper(seq![0x2001nat, 0x0nat, 0x0nat, 0x0nat, 0x0nat, 0x0nat, 0x0nat, 0x0nat], 40, g, 0x1000000);
    assert(ranges_v6()[25].holds(v6_address(g)) == (false));
    assert(expanded(seq![0x2001nat, 0x0nat, 0xa00nat], seq![]) =~= seq![0x2001nat, 0x0nat, 0xa00nat, 0x0nat, 0x0nat, 0x0nat, 0x0nat, 0x0nat]);
    held_by_upper(seq![0x2001nat, 0x0nat, 0xa00nat, 0x0nat, 0x0nat, 0x0nat, 0x0nat, 0x0nat], 40, g, 0x1000000);
    assert(ranges_v6()[26].holds(v6_address(g)) == (false));
    assert(expanded(seq![0x2001nat, 0x0nat, 0x7f00nat], seq![]) =~= seq![0x2001nat, 0x0nat, 0x7f00nat, 0x0nat, 0x0nat, 0x0nat, 0x0nat, 0x0nat]);
    held_by_upper(seq![0x2001nat, 0x0nat, 0x7f00nat, 0x0nat, 0x0nat, 0x0nat, 0x0nat, 0x0nat], 40, g, 0x1000000);
    assert(ranges_v6()[27].holds(v6_address(g)) == (false));
    assert(expanded(seq![0x2001nat, 0x0nat, 0xa9fenat], seq![]) =~= seq![0x2001nat, 0x0nat, 0xa9fenat, 0x0nat, 0x0nat, 0x0nat, 0x0nat, 0x0nat]);
    held_by_upper(seq![0x2001nat, 0x0nat, 0xa9fenat, 0x0nat, 0x0nat, 0x0nat, 0x0nat, 0x0nat], 48, g, 0x10000);
    assert(ranges_v6()[28].holds(v6_address(g)) == (false));
    assert(expanded(seq![0x2001nat, 0x0nat, 0xac10nat], seq![]) =~= seq![0x2001nat, 0x0nat, 0xac10nat, 0x0nat, 0x0nat, 0x0nat, 0x0nat, 0x0nat]);
    held_by_upper(seq![0x2001nat, 0x0nat, 0xac10nat, 0x0nat, 0x0nat, 0x0nat, 0x0nat, 0x0nat], 44, g, 0x100000);
    assert(ranges_v6()[29].holds(v6_address(g)) == (false));
    assert(expanded(seq![0x2001nat, 0x0nat, 0xc000nat], seq![]) =~= seq![0x2001nat, 0x0nat, 0xc000nat, 0x0nat, 0x0nat, 0x0nat, 0x0nat, 0x0nat]);
    held_by_upper(seq![0x2001nat, 0x0nat, 0xc000nat, 0x0nat, 0x0nat, 0x0nat, 0x0nat, 0x0nat], 56, g, 0x100);
    assert(ranges_v6()[30].holds(v6_address(g)) == (false));
    assert(expanded(seq![0x2001nat, 0x0nat, 0xc000nat, 0x200nat], seq![]) =~= seq![0x2001nat, 0x0nat, 0xc000nat, 0x200nat, 0x0nat, 0x0nat, 0x0nat, 0x0nat]);
    held_by_upper(seq![0x2001nat, 0x0nat, 0xc000nat, 0x200nat, 0x0nat, 0x0nat, 0x0nat, 0x0nat], 56, g, 0x100);
    assert(ranges_v6()[31].holds(v6_address(g)) == (false));
}

proof fn sixtofour_5(g: Seq<nat>, a: nat, b: nat, c: nat, d: nat)
    requires
        eight(g),
        octets(a, b, c, d),
        g[0] == 0x2002,
        g[1] == octet_pair(a, b),
        g[2] == octet_pair(c, d),
    ensures
        ranges_v6()[32].holds(v6_address(g)) == (false),
        ranges_v6()[33].holds(v6_address(g)) == (false),
        ranges_v6()[34].holds(v6_address(g)) == (false),
        ranges_v6()[35].holds(v6_address(g)) == (false),
        ranges_v6()[36].holds(v6_address(g)) == (false),
        ranges_v6()[37].holds(v6_address(g)) == (false),
        ranges_v6()[38].holds(v6_address(g)) == (false),
{
    vstd::arithmetic::power2::lemma2_to64();
    vstd::arithmetic::power2::lemma2_to64_rest();
    let t = upper(g);
    assert(t / 0x1_0000_0000_0000 == 0x2002);
    assert(t / 0x1000_0000_0000 == 0x2002 * 16 + a / 16);
    assert(t / 0x100_0000_0000 == 0x2002 * 256 + a);
    assert(t / 0x10_0000_0000 == 0x2002 * 0x1000 + a * 16 + b / 16);
    assert(t / 0x2_0000_0000 == 0x2002 * 0x8000 + a * 128 + b / 2);
    assert(t / 0x1_0000_0000 == 0x2002 * 0x1_0000 + a * 256 + b);
    assert(t / 0x100_0000 == 0x2002 * 0x100_0000 + a * 0x1_0000 + b * 256 + c);
    assert(t / 0x1_0000 == 0x2002 * 0x1_0000_0000 + a * 0x100_0000 + b * 0x1_0000 + c * 256 + d);
    assert(expanded(seq![0x2001nat, 0x0nat, 0xc0a8nat], seq![]) =~= seq![0x2001nat, 0x0nat, 0xc0a8nat, 0x0nat, 0x0nat, 0x0nat, 0x0nat, 0x0nat]);
    held_by_upper(seq![0x2001nat, 0x0nat, 0xc0a8nat, 0x0nat, 0x0nat, 0x0nat, 0x0nat, 0x0nat], 48, g, 0x10000);
    assert(ranges_v6()[32].holds(v6_address(g)) == (false));
    assert(expanded(seq![0x2001nat, 0x0nat, 0xc612nat], seq![]) =~= seq![0x2001nat, 0x0nat, 0xc612nat, 0x0nat, 0x0nat, 0x0nat, 0x0nat, 0x0nat]);
    held_by_upper(seq![0x2001nat, 0x0nat, 0xc612nat, 0x0nat, 0x0nat, 0x0nat, 0x0nat, 0x0nat], 47, g, 0x20000);
    assert(ranges_v6()[33].holds(v6_address(g)) == (false));
    assert(expanded(seq![0x2001nat, 0x0nat, 0xc633nat, 0x6400nat], seq![]) =~= seq![0x2001nat, 0x0nat, 0xc633nat, 0x6400nat, 0x0nat, 0x0nat, 0x0nat, 0x0nat]);
    held_by_upper(seq![0x2001nat, 0x0nat, 0xc633nat, 0x6400nat, 0x0nat, 0x0nat, 0x0nat, 0x0nat], 56, g, 0x100);
    assert(ranges_v6()[34].holds(v6_address(g)) == (false));
    assert(expanded(seq![0x2001nat, 0x0nat, 0xcb00nat, 0x7100nat], seq![]) =~= seq![0x2001nat, 0x0nat, 0xcb00nat, 0x7100nat, 0x0nat, 0x0nat, 0x0nat, 0x0nat]);
    held_by_upper(seq![0x2001nat, 0x0nat, 0xcb00nat, 0x7100nat, 0x0nat, 0x0nat, 0x0nat, 0x0nat], 56, g, 0x100);
    assert(ranges_v6()[35].holds(v6_address(g)) == (false));
    assert(expanded(seq![0x2001nat, 0x0nat, 0xe000nat], seq![]) =~= seq![0x2001nat, 0x0nat, 0xe000nat, 0x0nat, 0x0nat, 0x0nat, 0x0nat, 0x0nat]);
    held_by_upper(seq![0x2001nat, 0x0nat, 0xe000nat, 0x0nat, 0x0nat, 0x0nat, 0x0nat, 0x0nat], 36, g, 0x10000000);
    assert(ranges_v6()[36].holds(v6_address(g)) == (false));
    assert(expanded(seq![0x2001nat, 0x0nat, 0xf000nat], seq![]) =~= seq![0x2001nat, 0x0nat, 0xf000nat, 0x0nat, 0x0nat, 0x0nat, 0x0nat, 0x0nat]);
    held_by_upper(seq![0x2001nat, 0x0nat, 0xf000nat, 0x0nat, 0x0nat, 0x0nat, 0x0nat, 0x0nat], 36, g, 0x10000000);
    assert(ranges_v6()[37].holds(v6_address(g)) == (false));
    assert(expanded(seq![0x2001nat, 0x0nat, 0xffffnat, 0xffffnat], seq![]) =~= seq![0x2001nat, 0x0nat, 0xffffnat, 0xffffnat, 0x0nat, 0x0nat, 0x0nat, 0x0nat]);
    held_by_upper(seq![0x2001nat, 0x0nat, 0xffffnat, 0xffffnat, 0x0nat, 0x0nat, 0x0nat, 0x0nat], 64, g, 0x1);
    assert(ranges_v6()[38].holds(v6_address(g)) == (false));
}

proof fn teredo_1(g: Seq<nat>, a: nat, b: nat, c: nat, d: nat)
    requires
        eight(g),
        octets(a, b, c, d),
        g[0] == 0x2001,
        g[1] == 0,
        g[2] == octet_pair(a, b),
        g[3] == octet_pair(c, d),
    ensures
        ranges_v6()[0].holds(v6_address(g)) == (false),
        ranges_v6()[1].holds(v6_address(g)) == (false),
        ranges_v6()[2].holds(v6_address(g)) == (false),
        ranges_v6()[3].holds(v6_address(g)) == (false),
        ranges_v6()[4].holds(v6_address(g)) == (false),
        ranges_v6()[5].holds(v6_address(g)) == (false),
        ranges_v6()[6].holds(v6_address(g)) == (false),
        ranges_v6()[7].holds(v6_address(g)) == (false),
        ranges_v6()[8].holds(v6_address(g)) == (false),
        ranges_v6()[9].holds(v6_address(g)) == (false),
        ranges_v6()[10].holds(v6_address(g)) == (false),
{
    vstd::arithmetic::power2::lemma2_to64();
    vstd::arithmetic::power2::lemma2_to64_rest();
    let t = upper(g);
    assert(t / 0x1_0000_0000 == 0x2001_0000);
    assert(t / 0x1000_0000 == 0x2001_0000 * 16 + a / 16);
    assert(t / 0x100_0000 == 0x2001_0000 * 256 + a);
    assert(t / 0x10_0000 == 0x2001_0000 * 0x1000 + a * 16 + b / 16);
    assert(t / 0x2_0000 == 0x2001_0000 * 0x8000 + a * 128 + b / 2);
    assert(t / 0x1_0000 == 0x2001_0000 * 0x1_0000 + a * 256 + b);
    assert(t / 0x100 == 0x2001_0000 * 0x100_0000 + a * 0x1_0000 + b * 256 + c);
    assert(expanded(seq![], seq![]) =~= seq![0x0nat, 0x0nat, 0x0nat, 0x0nat, 0x0nat, 0x0nat, 0x0nat, 0x0nat]);
    held_shares_upper(seq![0x0nat, 0x0nat, 0x0nat, 0x0nat, 0x0nat, 0x0nat, 0x0nat, 0x0nat], 128, g);
    assert(ranges_v6()[0].holds(v6_address(g)) == (false));
    assert(expanded(seq![], seq![0x1nat]) =~= seq![0x0nat, 0x0nat, 0x0nat, 0x0nat, 0x0nat, 0x0nat, 0x0nat, 0x1nat]);
    held_shares_upper(seq![0x0nat, 0x0nat, 0x0nat, 0x0nat, 0x0nat, 0x0nat, 0x0nat, 0x1nat], 128, g);
    assert(ranges_v6()[1].holds(v6_address(g)) == (false));
    assert(expanded(seq![], seq![0xffffnat, 0x0nat, 0x0nat]) =~= seq![0x0nat, 0x0nat, 0x0nat, 0x0nat, 0x0nat, 0xffffnat, 0x0nat, 0x0nat]);
    held_shares_upper(seq![0x0nat, 0x0nat, 0x0nat, 0x0nat, 0x0nat, 0xffffnat, 0x0nat, 0x0nat], 96, g);
    assert(ranges_v6()[2].holds(v6_address(g)) == (false));
    assert(expanded(seq![], seq![]) =~= seq![0x0nat, 0x0nat, 0x0nat, 0x0nat, 0x0nat, 0x0nat, 0x0nat, 0x0nat]);
    held_shares_upper(seq![0x0nat, 0x0nat, 0x0nat, 0x0nat, 0x0nat, 0x0nat, 0x0nat, 0x0nat], 96, g);
    assert(ranges_v6()[3].holds(v6_address(g)) == (false));
    assert(expanded(seq![0x100nat], seq![]) =~= seq![0x100nat, 0x0nat, 0x0nat, 0x0nat, 0x0nat, 0x0nat, 0x0nat, 0x0nat]);
    held_by_upper(seq![0x100nat, 0x0nat, 0x0nat, 0x0nat, 0x0nat, 0x0nat, 0x0nat, 0x0nat], 64, g, 0x1);
    assert(ranges_v6()[4].holds(v6_address(g)) == (false));
    assert(expanded(seq![0x2001nat, 0x10nat], seq![]) =~= seq![0x2001nat, 0x10nat, 0x0nat, 0x0nat, 0x0nat, 0x0nat, 0x0nat, 0x0nat]);
    held_by_upper(seq![0x2001nat, 0x10nat, 0x0nat, 0x0nat, 0x0nat, 0x0nat, 0x0nat, 0x0nat], 28, g, 0x1000000000);
    assert(ranges_v6()[5].holds(v6_address(g)) == (false));
    assert(expanded(seq![0x2001nat, 0xdb8nat], seq![]) =~= seq![0x2001nat, 0xdb8nat, 0x0nat, 0x0nat, 0x0nat, 0x0nat, 0x0nat, 0x0nat]);
    held_by_upper(seq![0x2001nat, 0xdb8nat, 0x0nat, 0x0nat, 0x0nat, 0x0nat, 0x0nat, 0x0nat], 32, g, 0x100000000);
    assert(ranges_v6()[6].holds(v6_address(g)) == (false));
    assert(expanded(seq![0xfc00nat], seq![]) =~= seq![0xfc00nat, 0x0nat, 0x0nat, 0x0nat, 0x0nat, 0x0nat, 0x0nat, 0x0nat]);
    held_by_upper(seq![0xfc00nat, 0x0nat, 0x0nat, 0x0nat, 0x0nat, 0x0nat, 0x0nat, 0x0nat], 7, g, 0x200000000000000);
    assert(ranges_v6()[7].holds(v6_address(g)) == (false));
    assert(expanded(seq![0xfe80nat], seq![]) =~= seq![0xfe80nat, 0x0nat, 0x0nat, 0x0nat, 0x0nat, 0x0nat, 0x0nat, 0x0nat]);
    held_by_upper(seq![0xfe80nat, 0x0nat, 0x0nat, 0x0nat, 0x0nat, 0x0nat, 0x0nat, 0x0nat], 10, g, 0x40000000000000);
    assert(ranges_v6()[8].holds(v6_address(g)) == (false));
    assert(expanded(seq![0xfec0nat], seq![]) =~= seq![0xfec0nat, 0x0nat, 0x0nat, 0x0nat, 0x0nat, 0x0nat, 0x0nat, 0x0nat]);
    held_by_upper(seq![0xfec0nat, 0x0nat, 0x0nat, 0x0nat, 0x0nat, 0x0nat, 0x0nat, 0x0nat], 10, g, 0x40000000000000);
    assert(ranges_v6()[9].holds(v6_address(g)) == (false));
    assert(expanded(seq![0xff00nat], seq![]) =~= seq![0xff00nat, 0x0nat, 0x0nat, 0x0nat, 0x0nat, 0x0nat, 0x0nat, 0x0nat]);
    held_by_upper(seq![0xff00nat, 0x0nat, 0x0nat, 0x0nat, 0x0nat, 0x0nat, 0x0nat, 0x0nat], 8, g, 0x100000000000000);
    assert(ranges_v6()[10].holds(v6_address(g)) == (false));
}

proof fn teredo_2(g: Seq<nat>, a: nat, b: nat, c: nat, d: nat)
    requires
        eight(g),
        octets(a, b, c, d),
        g[0] == 0x2001,
        g[1] == 0,
        g[2] == octet_pair(a, b),
        g[3] == octet_pair(c, d),
    ensures
        ranges_v6()[11].holds(v6_address(g)) == (false),
        ranges_v6()[12].holds(v6_address(g)) == (false),
        ranges_v6()[13].holds(v6_address(g)) == (false),
        ranges_v6()[14].holds(v6_address(g)) == (false),
        ranges_v6()[15].holds(v6_address(g)) == (false),
        ranges_v6()[16].holds(v6_address(g)) == (false),
        ranges_v6()[17].holds(v6_address(g)) == (false),
{
    vstd::arithmetic::power2::lemma2_to64();
    vstd::arithmetic::power2::lemma2_to64_rest();
    let t = upper(g);
    assert(t / 0x1_0000_0000 == 0x2001_0000);
    assert(t / 0x1000_0000 == 0x2001_0000 * 16 + a / 16);
    assert(t / 0x100_0000 == 0x2001_0000 * 256 + a);
    assert(t / 0x10_0000 == 0x2001_0000 * 0x1000 + a * 16 + b / 16);
    assert(t / 0x2_0000 == 0x2001_0000 * 0x8000 + a * 128 + b / 2);
    assert(t / 0x1_0000 == 0x2001_0000 * 0x1_0000 + a * 256 + b);
    assert(t / 0x100 == 0x2001_0000 * 0x100_0000 + a * 0x1_0000 + b * 256 + c);
    assert(expanded(seq![0x2002nat], seq![]) =~= seq![0x2002nat, 0x0nat, 0x0nat, 0x0nat, 0x0nat, 0x0nat, 0x0nat, 0x0nat]);
    held_by_upper(seq![0x2002nat, 0x0nat, 0x0nat, 0x0nat, 0x0nat, 0x0nat, 0x0nat, 0x0nat], 24, g, 0x10000000000);
    assert(ranges_v6()[11].holds(v6_address(g)) == (false));
    assert(expanded(seq![0x2002nat, 0xa00nat], seq![]) =~= seq![0x2002nat, 0xa00nat, 0x0nat, 0x0nat, 0x0nat, 0x0nat, 0x0nat, 0x0nat]);
    held_by_upper(seq![0x2002nat, 0xa00nat, 0x0nat, 0x0nat, 0x0nat, 0x0nat, 0x0nat, 0x0nat], 24, g, 0x10000000000);
    assert(ranges_v6()[12].holds(v6_address(g)) == (false));
    assert(expanded(seq![0x2002nat, 0x7f00nat], seq![]) =~= seq![0x2002nat, 0x7f00nat, 0x0nat, 0x0nat, 0x0nat, 0x0nat, 0x0nat, 0x0nat]);
    held_by_upper(seq![0x2002nat, 0x7f00nat, 0x0nat, 0x0nat, 0x0nat, 0x0nat, 0x0nat, 0x0nat], 24, g, 0x10000000000);
    assert(ranges_v6()[13].holds(v6_address(g)) == (false));
    assert(expanded(seq![0x2002nat, 0xa9fenat], seq![]) =~= seq![0x2002nat, 0xa9fenat, 0x0nat, 0x0nat, 0x0nat, 0x0nat, 0x0nat, 0x0nat]);
    held_by_upper(seq![0x2002nat, 0xa9fenat, 0x0nat, 0x0nat, 0x0nat, 0x0nat, 0x0nat, 0x0nat], 32, g, 0x100000000);
    assert(ranges_v6()[14].holds(v6_address(g)) == (false));
    assert(expanded(seq![0x2002nat, 0xac10nat], seq![]) =~= seq![0x2002nat, 0xac10nat, 0x0nat, 0x0nat, 0x0nat, 0x0nat, 0x0nat, 0x0nat]);
    held_by_upper(seq![0x2002nat, 0xac10nat, 0x0nat, 0x0nat, 0x0nat, 0x0nat, 0x0nat, 0x0nat], 28, g, 0x1000000000);
    assert(ranges_v6()[15].holds(v6_address(g)) == (false));
    assert(expanded(seq![0x2002nat, 0xc000nat], seq![]) =~= seq![0x2002nat, 0xc000nat, 0x0nat, 0x0nat, 0x0nat, 0x0nat, 0x0nat, 0x0nat]);
    held_by_upper(seq![0x2002nat, 0xc000nat, 0x0nat, 0x0nat, 0x0nat, 0x0nat, 0x0nat, 0x0nat], 40, g, 0x1000000);
    assert(ranges_v6()[16].holds(v6_address(g)) == (false));
    assert(expanded(seq![0x2002nat, 0xc000nat, 0x200nat], seq![]) =~= seq![0x2002nat, 0xc000nat, 0x200nat, 0x0nat, 0x0nat, 0x0nat, 0x0nat, 0x0nat]);
    held_by_upper(seq![0x2002nat, 0xc000nat, 0x200nat, 0x0nat, 0x0nat, 0x0nat, 0x0nat, 0x0nat], 40, g, 0x1000000);
    assert(ranges_v6()[17].holds(v6_address(g)) == (false));
}

proof fn teredo_3(g: Seq<nat>, a: nat, b: nat, c: nat, d: nat)
    requires
        eight(g),
        octets(a, b, c, d),
        g[0] == 0x2001,
        g[1] == 0,
        g[2] == octet_pair(a, b),
        g[3] == octet_pair(c, d),
    ensures
        ranges_v6()[18].holds(v6_address(g)) == (false),
        ranges_v6()[19].holds(v6_address(g)) == (false),
        ranges_v6()[20].holds(v6_address(g)) == (false),
        ranges_v6()[21].holds(v6_address(g)) == (false),
        ranges_v6()[22].holds(v6_address(g)) == (false),
        ranges_v6()[23].holds(v6_address(g)) == (false),
        ranges_v6()[24].holds(v6_address(g)) == (false),
{
    vstd::arithmetic::power2::lemma2_to64();
    vstd::arithmetic::power2::lemma2_to64_rest();
    let t = upper(g);
    assert(t / 0x1_0000_0000 == 0x2001_0000);
    assert(t / 0x1000_0000 == 0x2001_0000 * 16 + a / 16);
    assert(t / 0x100_0000 == 0x2001_0000 * 256 + a);
    assert(t / 0x10_0000 == 0x2001_0000 * 0x1000 + a * 16 + b / 16);
    assert(t / 0x2_0000 == 0x2001_0000 * 0x8000 + a * 128 + b / 2);
    assert(t / 0x1_0000 == 0x2001_0000 * 0x1_0000 + a * 256 + b);
    assert(t / 0x100 == 0x2001_0000 * 0x100_0000 + a * 0x1_0000 + b * 256 + c);
    assert(expanded(seq![0x2002nat, 0xc0a8nat], seq![]) =~= seq![0x2002nat, 0xc0a8nat, 0x0nat, 0x0nat, 0x0nat, 0x0nat, 0x0nat, 0x0nat]);
    held_by_upper(seq![0x2002nat, 0xc0a8nat, 0x0nat, 0x0nat, 0x0nat, 0x0nat, 0x0nat, 0x0nat], 32, g, 0x100000000);
    assert(ranges_v6()[18].holds(v6_address(g)) == (false));
    assert(expanded(seq![0x2002nat, 0xc612nat], seq![]) =~= seq![0x2002nat, 0xc612nat, 0x0nat, 0x0nat, 0x0nat, 0x0nat, 0x0nat, 0x0nat]);
    held_by_upper(seq![0x2002nat, 0xc612nat, 0x0nat, 0x0nat, 0x0nat, 0x0nat, 0x0nat, 0x0nat], 31, g, 0x200000000);
    assert(ranges_v6()[19].holds(v6_address(g)) == (false));
    assert(expanded(seq![0x2002nat, 0xc633nat, 0x6400nat], seq![]) =~= seq![0x2002nat, 0xc633nat, 0x6400nat, 0x0nat, 0x0nat, 0x0nat, 0x0nat, 0x0nat]);
    held_by_upper(seq![0x2002nat, 0xc633nat, 0x6400nat, 0x0nat, 0x0nat, 0x0nat, 0x0nat, 0x0nat], 40, g, 0x1000000);
    assert(ranges_v6()[20].holds(v6_address(g)) == (false));
    assert(expanded(seq![0x2002nat, 0xcb00nat, 0x7100nat], seq![]) =~= seq![0x2002nat, 0xcb00nat, 0x7100nat, 0x0nat, 0x0nat, 0x0nat, 0x0nat, 0x0nat]);
    held_by_upper(seq![0x2002nat, 0xcb00nat, 0x7100nat, 0x0nat, 0x0nat, 0x0nat, 0x0nat, 0x0nat], 40, g, 0x1000000);
    assert(ranges_v6()[21].holds(v6_address(g)) == (false));
    assert(expanded(seq![0x2002nat, 0xe000nat], seq![]) =~= seq![0x2002nat, 0xe000nat, 0x0nat, 0x0nat, 0x0nat, 0x0nat, 0x0nat, 0x0nat]);
    held_by_upper(seq![0x2002nat, 0xe000nat, 0x0nat, 0x0nat, 0x0nat, 0x0nat, 0x0nat, 0x0nat], 20, g, 0x100000000000);
    assert(ranges_v6()[22].holds(v6_address(g)) == (false));
    assert(expanded(seq![0x2002nat, 0xf000nat], seq![]) =~= seq![0x2002nat, 0xf000nat, 0x0nat, 0x0nat, 0x0nat, 0x0nat, 0x0nat, 0x0nat]);
    held_by_upper(seq![0x2002nat, 0xf000nat, 0x0nat, 0x0nat, 0x0nat, 0x0nat, 0x0nat, 0x0nat], 20, g, 0x100000000000);
    assert(ranges_v6()[23].holds(v6_address(g)) == (false));
    assert(expanded(seq![0x2002nat, 0xffffnat, 0xffffnat], seq![]) =~= seq![0x2002nat, 0xffffnat, 0xffffnat, 0x0nat, 0x0nat, 0x0nat, 0x0nat, 0x0nat]);
    held_by_upper(seq![0x2002nat, 0xffffnat, 0xffffnat, 0x0nat, 0x0nat, 0x0nat, 0x0nat, 0x0nat], 48, g, 0x10000);
    assert(ranges_v6()[24].holds(v6_address(g)) == (false));
}

proof fn teredo_4(g: Seq<nat>, a: nat, b: nat, c: nat, d: nat)
    requires
        eight(g),
        octets(a, b, c, d),
        g[0] == 0x2001,
        g[1] == 0,
        g[2] == octet_pair(a, b),
        g[3] == octet_pair(c, d),
    ensures
        ranges_v6()[25].holds(v6_address(g)) == (a == 0),
        ranges_v6()[26].holds(v6_address(g)) == (a == 10),
        ranges_v6()[27].holds(v6_address(g)) == (a == 127),
        ranges_v6()[28].holds(v6_address(g)) == (a == 169 && b == 254),
        ranges_v6()[29].holds(v6_address(g)) == (a == 172 && 16 <= b < 32),
        ranges_v6()[30].holds(v6_address(g)) == (a == 192 && b == 0 && c == 0),
        ranges_v6()[31].holds(v6_address(g)) == (a == 192 && b == 0 && c == 2),
{
    vstd::arithmetic::power2::lemma2_to64();
    vstd::arithmetic::power2::lemma2_to64_rest();
    let t = upper(g);
    assert(t / 0x1_0000_0000 == 0x2001_0000);
    assert(t / 0x1000_0000 == 0x2001_0000 * 16 + a / 16);
    assert(t / 0x100_0000 == 0x2001_0000 * 256 + a);
    assert(t / 0x10_0000 == 0x2001_0000 * 0x1000 + a * 16 + b / 16);
    assert(t / 0x2_0000 == 0x2001_0000 * 0x8000 + a * 128 + b / 2);
    assert(t / 0x1_0000 == 0x2001_0000 * 0x1_0000 + a * 256 + b);
    assert(t / 0x100 == 0x2001_0000 * 0x100_0000 + a * 0x1_0000 + b * 256 + c);
    assert(expanded(seq![0x2001nat], seq![]) =~= seq![0x2001nat, 0x0nat, 0x0nat, 0x0nat, 0x0nat, 0x0nat, 0x0nat, 0x0nat]);
    held_by_upper(seq![0x2001nat, 0x0nat, 0x0nat, 0x0nat, 0x0nat, 0x0nat, 0x0nat, 0x0nat], 40, g, 0x1000000);
    assert(ranges_v6()[25].holds(v6_address(g)) == (a == 0));
    assert(expanded(seq![0x2001nat, 0x0nat, 0xa00nat], seq![]) =~= seq![0x2001nat, 0x0nat, 0xa00nat, 0x0nat, 0x0nat, 0x0nat, 0x0nat, 0x0nat]);
    held_by_upper(seq![0x2001nat, 0x0nat, 0xa00nat, 0x0nat, 0x0nat, 0x0nat, 0x0nat, 0x0nat], 40, g, 0x1000000);
    assert(ranges_v6()[26].holds(v6_address(g)) == (a == 10));
    assert(expanded(seq![0x2001nat, 0x0nat, 0x7f00nat], seq![]) =~= seq![0x2001nat, 0x0nat, 0x7f00nat, 0x0nat, 0x0nat, 0x0nat, 0x0nat, 0x0nat]);
    held_by_upper(seq![0x2001nat, 0x0nat, 0x7f00nat, 0x0nat, 0x0nat, 0x0nat, 0x0nat, 0x0nat], 40, g, 0x1000000);
    assert(ranges_v6()[27].holds(v6_address(g)) == (a == 127));
    assert(expanded(seq![0x2001nat, 0x0nat, 0xa9fenat], seq![]) =~= seq![0x2001nat, 0x0nat, 0xa9fenat, 0x0nat, 0x0nat, 0x0nat, 0x0nat, 0x0nat]);
    held_by_upper(seq![0x2001nat, 0x0nat, 0xa9fenat, 0x0nat, 0x0nat, 0x0nat, 0x0nat, 0x0nat], 48, g, 0x10000);
    assert(ranges_v6()[28].holds(v6_address(g)) == (a == 169 && b == 254));
    assert(expanded(seq![0x2001nat, 0x0nat, 0xac10nat], seq![]) =~= seq![0x2001nat, 0x0nat, 0xac10nat, 0x0nat, 0x0nat, 0x0nat, 0x0nat, 0x0nat]);
    held_by_upper(seq![0x2001nat, 0x0nat, 0xac10nat, 0x0nat, 0x0nat, 0x0nat, 0x0nat, 0x0nat], 44, g, 0x100000);
    assert(ranges_v6()[29].holds(v6_address(g)) == (a == 172 && 16 <= b < 32));
    assert(expanded(seq![0x2001nat, 0x0nat, 0xc000nat], seq![]) =~= seq![0x2001nat, 0x0nat, 0xc000nat, 0x0nat, 0x0nat, 0x0nat, 0x0nat, 0x0nat]);
    held_by_upper(seq![0x2001nat, 0x0nat, 0xc000nat, 0x0nat, 0x0nat, 0x0nat, 0x0nat, 0x0nat], 56, g, 0x100);
    assert(ranges_v6()[30].holds(v6_address(g)) == (a == 192 && b == 0 && c == 0));
    assert(expanded(seq![0x2001nat, 0x0nat, 0xc000nat, 0x200nat], seq![]) =~= seq![0x2001nat, 0x0nat, 0xc000nat, 0x200nat, 0x0nat, 0x0nat, 0x0nat, 0x0nat]);
    held_by_upper(seq![0x2001nat, 0x0nat, 0xc000nat, 0x200nat, 0x0nat, 0x0nat, 0x0nat, 0x0nat], 56, g, 0x100);
    assert(ranges_v6()[31].holds(v6_address(g)) == (a == 192 && b == 0 && c == 2));
}

proof fn teredo_5(g: Seq<nat>, a: nat, b: nat, c: nat, d: nat)
    requires
        eight(g),
        octets(a, b, c, d),
        g[0] == 0x2001,
        g[1] == 0,
        g[2] == octet_pair(a, b),
        g[3] == octet_pair(c, d),
    ensures
        ranges_v6()[32].holds(v6_address(g)) == (a == 192 && b == 168),
        ranges_v6()[33].holds(v6_address(g)) == (a == 198 && (b == 18 || b == 19)),
        ranges_v6()[34].holds(v6_address(g)) == (a == 198 && b == 51 && c == 100),
        ranges_v6()[35].holds(v6_address(g)) == (a == 203 && b == 0 && c == 113),
        ranges_v6()[36].holds(v6_address(g)) == (224 <= a < 240),
        ranges_v6()[37].holds(v6_address(g)) == (240 <= a),
        ranges_v6()[38].holds(v6_address(g)) == (a == 255 && b == 255 && c == 255 && d == 255),
{
    vstd::arithmetic::power2::lemma2_to64();
    vstd::arithmetic::power2::lemma2_to64_rest();
    let t = upper(g);
    assert(t / 0x1_0000_0000 == 0x2001_0000);
    assert(t / 0x1000_0000 == 0x2001_0000 * 16 + a / 16);
    assert(t / 0x100_0000 == 0x2001_0000 * 256 + a);
    assert(t / 0x10_0000 == 0x2001_0000 * 0x1000 + a * 16 + b / 16);
    assert(t / 0x2_0000 == 0x2001_0000 * 0x8000 + a * 128 + b / 2);
    assert(t / 0x1_0000 == 0x2001_0000 * 0x1_0000 + a * 256 + b);
    assert(t / 0x100 == 0x2001_0000 * 0x100_0000 + a * 0x1_0000 + b * 256 + c);
    assert(expanded(seq![0x2001nat, 0x0nat, 0xc0a8nat], seq![]) =~= seq![0x2001nat, 0x0nat, 0xc0a8nat, 0x0nat, 0x0nat, 0x0nat, 0x0nat, 0x0nat]);
    held_by_upper(seq![0x2001nat, 0x0nat, 0xc0a8nat, 0x0nat, 0x0nat, 0x0nat, 0x0nat, 0x0nat], 48, g, 0x10000);
    assert(ranges_v6()[32].holds(v6_address(g)) == (a == 192 && b == 168));
    assert(expanded(seq![0x2001nat, 0x0nat, 0xc612nat], seq![]) =~= seq![0x2001nat, 0x0nat, 0xc612nat, 0x0nat, 0x0nat, 0x0nat, 0x0nat, 0x0nat]);
    held_by_upper(seq![0x2001nat, 0x0nat, 0xc612nat, 0x0nat, 0x0nat, 0x0nat, 0x0nat, 0x0nat], 47, g, 0x20000);
    assert(ranges_v6()[33].holds(v6_address(g)) == (a == 198 && (b == 18 || b == 19)));
    assert(expanded(seq![0x2001nat, 0x0nat, 0xc633nat, 0x6400nat], seq![]) =~= seq![0x2001nat, 0x0nat, 0xc633nat, 0x6400nat, 0x0nat, 0x0nat, 0x0nat, 0x0nat]);
    held_by_upper(seq![0x2001nat, 0x0nat, 0xc633nat, 0x6400nat, 0x0nat, 0x0nat, 0x0nat, 0x0nat], 56, g, 0x100);
    assert(ranges_v6()[34].holds(v6_address(g)) == (a == 198 && b == 51 && c == 100));
    assert(expanded(seq![0x2001nat, 0x0nat, 0xcb00nat, 0x7100nat], seq![]) =~= seq![0x2001nat, 0x0nat, 0xcb00nat, 0x7100nat, 0x0nat, 0x0nat, 0x0nat, 0x0nat]);
    held_by_upper(seq![0x2001nat, 0x0nat, 0xcb00nat, 0x7100nat, 0x0nat, 0x0nat, 0x0nat, 0x0nat], 56, g, 0x100);
    assert(ranges_v6()[35].holds(v6_address(g)) == (a == 203 && b == 0 && c == 113));
    assert(expanded(seq![0x2001nat, 0x0nat, 0xe000nat], seq![]) =~= seq![0x2001nat, 0x0nat, 0xe000nat, 0x0nat, 0x0nat, 0x0nat, 0x0nat, 0x0nat]);
    held_by_upper(seq![0x2001nat, 0x0nat, 0xe000nat, 0x0nat, 0x0nat, 0x0nat, 0x0nat, 0x0nat], 36, g, 0x10000000);
    assert(ranges_v6()[36].holds(v6_address(g)) == (224 <= a < 240));
    assert(expanded(seq![0x2001nat, 0x0nat, 0xf000nat], seq![]) =~= seq![0x2001nat, 0x0nat, 0xf000nat, 0x0nat, 0x0nat, 0x0nat, 0x0nat, 0x0nat]);
    held_by_upper(seq![0x2001nat, 0x0nat, 0xf000nat, 0x0nat, 0x0nat, 0x0nat, 0x0nat, 0x0nat], 36, g, 0x10000000);
    assert(ranges_v6()[37].holds(v6_address(g)) == (240 <= a));
    assert(expanded(seq![0x2001nat, 0x0nat, 0xffffnat, 0xffffnat], seq![]) =~= seq![0x2001nat, 0x0nat, 0xffffnat, 0xffffnat, 0x0nat, 0x0nat, 0x0nat, 0x0nat]);
    held_by_upper(seq![0x2001nat, 0x0nat, 0xffffnat, 0xffffnat, 0x0nat, 0x0nat, 0x0nat, 0x0nat], 64, g, 0x1);
    assert(ranges_v6()[38].holds(v6_address(g)) == (a == 255 && b == 255 && c == 255 && d == 255));
}

/// A 6to4 address is a bogon exactly when the IPv4 address it wraps is one, the
/// shared range aside, which has no range of its own among the wrapped ones.
pub proof fn law_6to4_wraps_the_ipv4_bogons(g: Seq<nat>, a: nat, b: nat, c: nat, d: nat)
    requires
        eight(g),
        octets(a, b, c, d),
        g[0] == 0x2002,
        g[1] == octet_pair(a, b),
        g[2] == octet_pair(c, d),
    ensures
        bogon_address(v6_address(g)) == (bogon_octets(a, b, c, d) && !(a == 100 && 64 <= b < 128)),
{
    sixtofour_1(g, a, b, c, d);
    sixtofour_2(g, a, b, c, d);
    sixtofour_3(g, a, b, c, d);
    sixtofour_4(g, a, b, c, d);
    sixtofour_5(g, a, b, c, d);
    let address = v6_address(g);
    let table = ranges_v6();
    assert(ranges(address) == table);
    if bogon_address(address) {
        let i = choose|i: int| 0 <= i < table.len() && (#[trigger] table[i]).holds(address);
        assert(i == 0 || i == 1 || i == 2 || i == 3 || i == 4 || i == 5 || i == 6 || i == 7
            || i == 8 || i == 9 || i == 10 || i == 11 || i == 12 || i == 13 || i == 14 || i == 15
            || i == 16 || i == 17 || i == 18 || i == 19 || i == 20 || i == 21 || i == 22 || i == 23
            || i == 24 || i == 25 || i == 26 || i == 27 || i == 28 || i == 29 || i == 30 || i == 31
            || i == 32 || i == 33 || i == 34 || i == 35 || i == 36 || i == 37 || i == 38);
    }
}

/// A Teredo address is a bogon exactly when the IPv4 address of its server is
/// one, the shared range aside, which has no range of its own among the wrapped
/// ones.
pub proof fn law_teredo_wraps_the_ipv4_bogons(g: Seq<nat>, a: nat, b: nat, c: nat, d: nat)
    requires
        eight(g),
        octets(a, b, c, d),
        g[0] == 0x2001,
        g[1] == 0,
        g[2] == octet_pair(a, b),
        g[3] == octet_pair(c, d),
    ensures
        bogon_address(v6_address(g)) == (bogon_octets(a, b, c, d) && !(a == 100 && 64 <= b < 128)),
{
    teredo_1(g, a, b, c, d);
    teredo_2(g, a, b, c, d);
    teredo_3(g, a, b, c, d);
    teredo_4(g, a, b, c, d);
    teredo_5(g, a, b, c, d);
    let address = v6_address(g);
    let table = ranges_v6();
    assert(ranges(address) == table);
    if bogon_address(address) {
        let i = choose|i: int| 0 <= i < table.len() && (#[trigger] table[i]).holds(address);
        assert(i == 0 || i == 1 || i == 2 || i == 3 || i == 4 || i == 5 || i == 6 || i == 7
            || i == 8 || i == 9 || i == 10 || i == 11 || i == 12 || i == 13 || i == 14 || i == 15
            || i == 16 || i == 17 || i == 18 || i == 19 || i == 20 || i == 21 || i == 22 || i == 23
            || i == 24 || i == 25 || i == 26 || i == 27 || i == 28 || i == 29 || i == 30 || i == 31
            || i == 32 || i == 33 || i == 34 || i == 35 || i == 36 || i == 37 || i == 38);
    }
}

/// Unique local, link-local, site-local, multicast and documentation addresses
/// are bogons.
pub proof fn law_local_ipv6_addresses_are_bogons(g: Seq<nat>)
    requires
        eight(g),
        ({
            ||| 0xfc00 <= g[0] < 0xfe00
            ||| 0xfe80 <= g[0]
            ||| g[0] == 0x2001 && g[1] == 0xdb8
        }),
    ensures
        bogon_address(v6_address(g)),
{
    vstd::arithmetic::power2::lemma2_to64();
    vstd::arithmetic::power2::lemma2_to64_rest();
    let t = upper(g);
    let address = v6_address(g);
    assert(ranges(address) == ranges_v6());
    assert(t / 0x200_0000_0000_0000 == g[0] / 512);
    assert(t / 0x40_0000_0000_0000 == g[0] / 64);
    assert(t / 0x100_0000_0000_0000 == g[0] / 256);
    assert(t / 0x1_0000_0000 == g[0] * 0x1_0000 + g[1]);
    assert(expanded(seq![0x2001nat, 0xdb8nat], seq![]) =~= seq![
        0x2001nat,
        0xdb8nat,
        0nat,
        0nat,
        0nat,
        0nat,
        0nat,
        0nat,
    ]);
    held_by_upper(seq![0x2001nat, 0xdb8nat, 0nat, 0nat, 0nat, 0nat, 0nat, 0nat], 32, g, 0x1_0000_0000);
    assert(ranges_v6()[6].holds(address) == (g[0] == 0x2001 && g[1] == 0xdb8));
    assert(expanded(seq![0xfc00nat], seq![]) =~= seq![
        0xfc00nat,
        0nat,
        0nat,
        0nat,
        0nat,
        0nat,
        0nat,
        0nat,
    ]);
    held_by_upper(
        seq![0xfc00nat, 0nat, 0nat, 0nat, 0nat, 0nat, 0nat, 0nat],
        7,
        g,
        0x200_0000_0000_0000,
    );
    assert(ranges_v6()[7].holds(address) == (0xfc00 <= g[0] < 0xfe00));
    assert(expanded(seq![0xfe80nat], seq![]) =~= seq![
        0xfe80nat,
        0nat,
        0nat,
        0nat,
        0nat,
        0nat,
        0nat,
        0nat,
    ]);
    held_by_upper(
        seq![0xfe80nat, 0nat, 0nat, 0nat, 0nat, 0nat, 0nat, 0nat],
        10,
        g,
        0x40_0000_0000_0000,
    );
    assert(ranges_v6()[8].holds(address) == (0xfe80 <= g[0] < 0xfec0));
    assert(expanded(seq![0xfec0nat], seq![]) =~= seq![
        0xfec0nat,
        0nat,
        0nat,
        0nat,
        0nat,
        0nat,
        0nat,
        0nat,
    ]);
    held_by_upper(
        seq![0xfec0nat, 0nat, 0nat, 0nat, 0nat, 0nat, 0nat, 0nat],
        10,
        g,
        0x40_0000_0000_0000,
    );
    assert(ranges_v6()[9].holds(address) == (0xfec0 <= g[0] < 0xff00));
    assert(expanded(seq![0xff00nat], seq![]) =~= seq![
        0xff00nat,
        0nat,
        0nat,
        0nat,
        0nat,
        0nat,
        0nat,
        0nat,
    ]);
    held_by_upper(
        seq![0xff00nat, 0nat, 0nat, 0nat, 0nat, 0nat, 0nat, 0nat],
        8,
        g,
        0x100_0000_0000_0000,
    );
    assert(ranges_v6()[10].holds(address) == (0xff00 <= g[0]));
}

/// A 4-in-6 address is held against the IPv6 ranges, where all of its kind are
/// bogons, whichever IPv4 address it maps.
pub proof fn law_every_mapped_address_is_a_bogon(high: nat, low: nat)
    requires
        high < 0x1_0000,
        low < 0x1_0000,
    ensures
        bogon_address(
            v6_address(seq![0nat, 0nat, 0nat, 0nat, 0nat, 0xffffnat, high, low]),
        ),
{
    let g = seq![0nat, 0nat, 0nat, 0nat, 0nat, 0xffffnat, high, low];
    let base = seq![0nat, 0nat, 0nat, 0nat, 0nat, 0xffffnat, 0nat, 0nat];
    vstd::arithmetic::power2::lemma2_to64();
    assert(expanded(seq![], seq![0xffffnat, 0nat, 0nat]) =~= base);
    mapped_value(g);
    mapped_value(base);
    let address = v6_address(g);
    assert(ranges(address) == ranges_v6());
    assert(ranges_v6()[2].holds(address));
}

proof fn mapped_value(g: Seq<nat>)
    requires
        eight(g),
        forall|i: int| 0 <= i < 5 ==> #[trigger] g[i] == 0,
    ensures
        groups_value(g) == g[5] * 0x1_0000_0000 + g[6] * 0x1_0000 + g[7],
        groups_value(g) / 0x1_0000_0000 == g[5],
{
    reveal_with_fuel(groups_value, 9);
    assert(g.drop_last() =~= g.take(7));
    assert(g.take(7).drop_last() =~= g.take(6));
    assert(g.take(6).drop_last() =~= g.take(5));
    assert(g.take(5).drop_last() =~= g.take(4));
    assert(g.take(4).drop_last() =~= g.take(3));
    assert(g.take(3).drop_last() =~= g.take(2));
    assert(g.take(2).drop_last() =~= g.take(1));
    assert(g.take(1).drop_last() =~= g.take(0));
}

/// A range of sixteen to sixty-four bits holds only addresses that share its first
/// group, and one of at least thirty-two its second too.
proof fn held_shares_groups(groups: Seq<nat>, len: nat, other: Seq<nat>)
    requires
        eight(groups),
        eight(other),
        16 <= len <= 64,
        (Prefix::V6 { address: groups_value(groups) as u128, len: len as u8 }).holds(
            v6_address(other),
        ),
    ensures
        other[0] == groups[0],
        len >= 32 ==> other[1] == groups[1],
{
    let size = pow2((64 - len) as nat);
    held_by_upper(groups, len, other, size);
    vstd::arithmetic::power2::lemma2_to64();
    vstd::arithmetic::power2::lemma2_to64_rest();
    vstd::arithmetic::power2::lemma_pow2_pos((64 - len) as nat);
    vstd::arithmetic::power2::lemma_pow2_pos((len - 16) as nat);
    vstd::arithmetic::power2::lemma_pow2_adds((64 - len) as nat, (len - 16) as nat);
    assert((64 - len) as nat + (len - 16) as nat == 48);
    let a = upper(groups) as int;
    let b = upper(other) as int;
    vstd::arithmetic::div_mod::lemma_div_denominator(a, size as int, pow2((len - 16) as nat) as int);
    vstd::arithmetic::div_mod::lemma_div_denominator(b, size as int, pow2((len - 16) as nat) as int);
    assert(a / 0x1_0000_0000_0000 == groups[0]);
    assert(b / 0x1_0000_0000_0000 == other[0]);
    if len >= 32 {
        vstd::arithmetic::power2::lemma_pow2_pos((len - 32) as nat);
        vstd::arithmetic::power2::lemma_pow2_adds((64 - len) as nat, (len - 32) as nat);
        assert((64 - len) as nat + (len - 32) as nat == 32);
        vstd::arithmetic::div_mod::lemma_div_denominator(
            a,
            size as int,
            pow2((len - 32) as nat) as int,
        );
        vstd::arithmetic::div_mod::lemma_div_denominator(
            b,
            size as int,
            pow2((len - 32) as nat) as int,
        );
        assert(a / 0x1_0000_0000 == groups[0] * 0x1_0000 + groups[1]);
        assert(b / 0x1_0000_0000 == other[0] * 0x1_0000 + other[1]);
    }
}

proof fn wrapped_6to4_a(g: Seq<nat>)
    requires
        eight(g),
    ensures
        ranges_v6()[11].holds(v6_address(g)) ==> g[0] == 0x2002,
        ranges_v6()[12].holds(v6_address(g)) ==> g[0] == 0x2002,
        ranges_v6()[13].holds(v6_address(g)) ==> g[0] == 0x2002,
        ranges_v6()[14].holds(v6_address(g)) ==> g[0] == 0x2002,
        ranges_v6()[15].holds(v6_address(g)) ==> g[0] == 0x2002,
        ranges_v6()[16].holds(v6_address(g)) ==> g[0] == 0x2002,
        ranges_v6()[17].holds(v6_address(g)) ==> g[0] == 0x2002,
{
    assert(expanded(seq![0x2002nat], seq![]) =~= seq![0x2002nat, 0x0nat, 0x0nat, 0x0nat, 0x0nat, 0x0nat, 0x0nat, 0x0nat]);
    if ranges_v6()[11].holds(v6_address(g)) {
        held_shares_groups(seq![0x2002nat, 0x0nat, 0x0nat, 0x0nat, 0x0nat, 0x0nat, 0x0nat, 0x0nat], 24, g);
    }
    assert(expanded(seq![0x2002nat, 0xa00nat], seq![]) =~= seq![0x2002nat, 0xa00nat, 0x0nat, 0x0nat, 0x0nat, 0x0nat, 0x0nat, 0x0nat]);
    if ranges_v6()[12].holds(v6_address(g)) {
        held_shares_groups(seq![0x2002nat, 0xa00nat, 0x0nat, 0x0nat, 0x0nat, 0x0nat, 0x0nat, 0x0nat], 24, g);
    }
    assert(expanded(seq![0x2002nat, 0x7f00nat], seq![]) =~= seq![0x2002nat, 0x7f00nat, 0x0nat, 0x0nat, 0x0nat, 0x0nat, 0x0nat, 0x0nat]);
    if ranges_v6()[13].holds(v6_address(g)) {
        held_shares_groups(seq![0x2002nat, 0x7f00nat, 0x0nat, 0x0nat, 0x0nat, 0x0nat, 0x0nat, 0x0nat], 24, g);
    }
    assert(expanded(seq![0x2002nat, 0xa9fenat], seq![]) =~= seq![0x2002nat, 0xa9fenat, 0x0nat, 0x0nat, 0x0nat, 0x0nat, 0x0nat, 0x0nat]);
    if ranges_v6()[14].holds(v6_address(g)) {
        held_shares_groups(seq![0x2002nat, 0xa9fenat, 0x0nat, 0x0nat, 0x0nat, 0x0nat, 0x0nat, 0x0nat], 32, g);
    }
    assert(expanded(seq![0x2002nat, 0xac10nat], seq![]) =~= seq![0x2002nat, 0xac10nat, 0x0nat, 0x0nat, 0x0nat, 0x0nat, 0x0nat, 0x0nat]);
    if ranges_v6()[15].holds(v6_address(g)) {
        held_shares_groups(seq![0x2002nat, 0xac10nat, 0x0nat, 0x0nat, 0x0nat, 0x0nat, 0x0nat, 0x0nat], 28, g);
    }
    assert(expanded(seq![0x2002nat, 0xc000nat], seq![]) =~= seq![0x2002nat, 0xc000nat, 0x0nat, 0x0nat, 0x0nat, 0x0nat, 0x0nat, 0x0nat]);
    if ranges_v6()[16].holds(v6_address(g)) {
        held_shares_groups(seq![0x2002nat, 0xc000nat, 0x0nat, 0x0nat, 0x0nat, 0x0nat, 0x0nat, 0x0nat], 40, g);
    }
    assert(expanded(seq![0x2002nat, 0xc000nat, 0x200nat], seq![]) =~= seq![0x2002nat, 0xc000nat, 0x200nat, 0x0nat, 0x0nat, 0x0nat, 0x0nat, 0x0nat]);
    if ranges_v6()[17].holds(v6_address(g)) {
        held_shares_groups(seq![0x2002nat, 0xc000nat, 0x200nat, 0x0nat, 0x0nat, 0x0nat, 0x0nat, 0x0nat], 40, g);
    }
}

proof fn wrapped_6to4_b(g: Seq<nat>)
    requires
        eight(g),
    ensures
        ranges_v6()[18].holds(v6_address(g)) ==> g[0] == 0x2002,
        ranges_v6()[19].holds(v6_address(g)) ==> g[0] == 0x2002,
        ranges_v6()[20].holds(v6_address(g)) ==> g[0] == 0x2002,
        ranges_v6()[21].holds(v6_address(g)) ==> g[0] == 0x2002,
        ranges_v6()[22].holds(v6_address(g)) ==> g[0] == 0x2002,
        ranges_v6()[23].holds(v6_address(g)) ==> g[0] == 0x2002,
        ranges_v6()[24].holds(v6_address(g)) ==> g[0] == 0x2002,
{
    assert(expanded(seq![0x2002nat, 0xc0a8nat], seq![]) =~= seq![0x2002nat, 0xc0a8nat, 0x0nat, 0x0nat, 0x0nat, 0x0nat, 0x0nat, 0x0nat]);
    if ranges_v6()[18].holds(v6_address(g)) {
        held_shares_groups(seq![0x2002nat, 0xc0a8nat, 0x0nat, 0x0nat, 0x0nat, 0x0nat, 0x0nat, 0x0nat], 32, g);
    }
    assert(expanded(seq![0x2002nat, 0xc612nat], seq![]) =~= seq![0x2002nat, 0xc612nat, 0x0nat, 0x0nat, 0x0nat, 0x0nat, 0x0nat, 0x0nat]);
    if ranges_v6()[19].holds(v6_address(g)) {
        held_shares_groups(seq![0x2002nat, 0xc612nat, 0x0nat, 0x0nat, 0x0nat, 0x0nat, 0x0nat, 0x0nat], 31, g);
    }
    assert(expanded(seq![0x2002nat, 0xc633nat, 0x6400nat], seq![]) =~= seq![0x2002nat, 0xc633nat, 0x6400nat, 0x0nat, 0x0nat, 0x0nat, 0x0nat, 0x0nat]);
    if ranges_v6()[20].holds(v6_address(g)) {
        held_shares_groups(seq![0x2002nat, 0xc633nat, 0x6400nat, 0x0nat, 0x0nat, 0x0nat, 0x0nat, 0x0nat], 40, g);
    }
    assert(expanded(seq![0x2002nat, 0xcb00nat, 0x7100nat], seq![]) =~= seq![0x2002nat, 0xcb00nat, 0x7100nat, 0x0nat, 0x0nat, 0x0nat, 0x0nat, 0x0nat]);
    if ranges_v6()[21].holds(v6_address(g)) {
        held_shares_groups(seq![0x2002nat, 0xcb00nat, 0x7100nat, 0x0nat, 0x0nat, 0x0nat, 0x0nat, 0x0nat], 40, g);
    }
    assert(expanded(seq![0x2002nat, 0xe000nat], seq![]) =~= seq![0x2002nat, 0xe000nat, 0x0nat, 0x0nat, 0x0nat, 0x0nat, 0x0nat, 0x0nat]);
    if ranges_v6()[22].holds(v6_address(g)) {
        held_shares_groups(seq![0x2002nat, 0xe000nat, 0x0nat, 0x0nat, 0x0nat, 0x0nat, 0x0nat, 0x0nat], 20, g);
    }
    assert(expanded(seq![0x2002nat, 0xf000nat], seq![]) =~= seq![0x2002nat, 0xf000nat, 0x0nat, 0x0nat, 0x0nat, 0x0nat, 0x0nat, 0x0nat]);
    if ranges_v6()[23].holds(v6_address(g)) {
        held_shares_groups(seq![0x2002nat, 0xf000nat, 0x0nat, 0x0nat, 0x0nat, 0x0nat, 0x0nat, 0x0nat], 20, g);
    }
    assert(expanded(seq![0x2002nat, 0xffffnat, 0xffffnat], seq![]) =~= seq![0x2002nat, 0xffffnat, 0xffffnat, 0x0nat, 0x0nat, 0x0nat, 0x0nat, 0x0nat]);
    if ranges_v6()[24].holds(v6_address(g)) {
        held_shares_groups(seq![0x2002nat, 0xffffnat, 0xffffnat, 0x0nat, 0x0nat, 0x0nat, 0x0nat, 0x0nat], 48, g);
    }
}

proof fn wrapped_teredo_a(g: Seq<nat>)
    requires
        eight(g),
    ensures
        ranges_v6()[25].holds(v6_address(g)) ==> g[0] == 0x2001 && g[1] == 0,
        ranges_v6()[26].holds(v6_address(g)) ==> g[0] == 0x2001 && g[1] == 0,
        ranges_v6()[27].holds(v6_address(g)) ==> g[0] == 0x2001 && g[1] == 0,
        ranges_v6()[28].holds(v6_address(g)) ==> g[0] == 0x2001 && g[1] == 0,
        ranges_v6()[29].holds(v6_address(g)) ==> g[0] == 0x2001 && g[1] == 0,
        ranges_v6()[30].holds(v6_address(g)) ==> g[0] == 0x2001 && g[1] == 0,
        ranges_v6()[31].holds(v6_address(g)) ==> g[0] == 0x2001 && g[1] == 0,
{
    assert(expanded(seq![0x2001nat], seq![]) =~= seq![0x2001nat, 0x0nat, 0x0nat, 0x0nat, 0x0nat, 0x0nat, 0x0nat, 0x0nat]);
    if ranges_v6()[25].holds(v6_address(g)) {
        held_shares_groups(seq![0x2001nat, 0x0nat, 0x0nat, 0x0nat, 0x0nat, 0x0nat, 0x0nat, 0x0nat], 40, g);
    }
    assert(expanded(seq![0x2001nat, 0x0nat, 0xa00nat], seq![]) =~= seq![0x2001nat, 0x0nat, 0xa00nat, 0x0nat, 0x0nat, 0x0nat, 0x0nat, 0x0nat]);
    if ranges_v6()[26].holds(v6_address(g)) {
        held_shares_groups(seq![0x2001nat, 0x0nat, 0xa00nat, 0x0nat, 0x0nat, 0x0nat, 0x0nat, 0x0nat], 40, g);
    }
    assert(expanded(seq![0x2001nat, 0x0nat, 0x7f00nat], seq![]) =~= seq![0x2001nat, 0x0nat, 0x7f00nat, 0x0nat, 0x0nat, 0x0nat, 0x0nat, 0x0nat]);
    if ranges_v6()[27].holds(v6_address(g)) {
        held_shares_groups(seq![0x2001nat, 0x0nat, 0x7f00nat, 0x0nat, 0x0nat, 0x0nat, 0x0nat, 0x0nat], 40, g);
    }
    assert(expanded(seq![0x2001nat, 0x0nat, 0xa9fenat], seq![]) =~= seq![0x2001nat, 0x0nat, 0xa9fenat, 0x0nat, 0x0nat, 0x0nat, 0x0nat, 0x0nat]);
    if ranges_v6()[28].holds(v6_address(g)) {
        held_shares_groups(seq![0x2001nat, 0x0nat, 0xa9fenat, 0x0nat, 0x0nat, 0x0nat, 0x0nat, 0x0nat], 48, g);
    }
    assert(expanded(seq![0x2001nat, 0x0nat, 0xac10nat], seq![]) =~= seq![0x2001nat, 0x0nat, 0xac10nat, 0x0nat, 0x0nat, 0x0nat, 0x0nat, 0x0nat]);
    if ranges_v6()[29].holds(v6_address(g)) {
        held_shares_groups(seq![0x2001nat, 0x0nat, 0xac10nat, 0x0nat, 0x0nat, 0x0nat, 0x0nat, 0x0nat], 44, g);
    }
    assert(expanded(seq![0x2001nat, 0x0nat, 0xc000nat], seq![]) =~= seq![0x2001nat, 0x0nat, 0xc000nat, 0x0nat, 0x0nat, 0x0nat, 0x0nat, 0x0nat]);
    if ranges_v6()[30].holds(v6_address(g)) {
        held_shares_groups(seq![0x2001nat, 0x0nat, 0xc000nat, 0x0nat, 0x0nat, 0x0nat, 0x0nat, 0x0nat], 56, g);
    }
    assert(expanded(seq![0x2001nat, 0x0nat, 0xc000nat, 0x200nat], seq![]) =~= seq![0x2001nat, 0x0nat, 0xc000nat, 0x200nat, 0x0nat, 0x0nat, 0x0nat, 0x0nat]);
    if ranges_v6()[31].holds(v6_address(g)) {
        held_shares_groups(seq![0x2001nat, 0x0nat, 0xc000nat, 0x200nat, 0x0nat, 0x0nat, 0x0nat, 0x0nat], 56, g);
    }
}

proof fn wrapped_teredo_b(g: Seq<nat>)
    requires
        eight(g),
    ensures
        ranges_v6()[32].holds(v6_address(g)) ==> g[0] == 0x2001 && g[1] == 0,
        ranges_v6()[33].holds(v6_address(g)) ==> g[0] == 0x2001 && g[1] == 0,
        ranges_v6()[34].holds(v6_address(g)) ==> g[0] == 0x2001 && g[1] == 0,
        ranges_v6()[35].holds(v6_address(g)) ==> g[0] == 0x2001 && g[1] == 0,
        ranges_v6()[36].holds(v6_address(g)) ==> g[0] == 0x2001 && g[1] == 0,
        ranges_v6()[37].holds(v6_address(g)) ==> g[0] == 0x2001 && g[1] == 0,
        ranges_v6()[38].holds(v6_address(g)) ==> g[0] == 0x2001 && g[1] == 0,
{
    assert(expanded(seq![0x2001nat, 0x0nat, 0xc0a8nat], seq![]) =~= seq![0x2001nat, 0x0nat, 0xc0a8nat, 0x0nat, 0x0nat, 0x0nat, 0x0nat, 0x0nat]);
    if ranges_v6()[32].holds(v6_address(g)) {
        held_shares_groups(seq![0x2001nat, 0x0nat, 0xc0a8nat, 0x0nat, 0x0nat, 0x0nat, 0x0nat, 0x0nat], 48, g);
    }
    assert(expanded(seq![0x2001nat, 0x0nat, 0xc612nat], seq![]) =~= seq![0x2001nat, 0x0nat, 0xc612nat, 0x0nat, 0x0nat, 0x0nat, 0x0nat, 0x0nat]);
    if ranges_v6()[33].holds(v6_address(g)) {
        held_shares_groups(seq![0x2001nat, 0x0nat, 0xc612nat, 0x0nat, 0x0nat, 0x0nat, 0x0nat, 0x0nat], 47, g);
    }
    assert(expanded(seq![0x2001nat, 0x0nat, 0xc633nat, 0x6400nat], seq![]) =~= seq![0x2001nat, 0x0nat, 0xc633nat, 0x6400nat, 0x0nat, 0x0nat, 0x0nat, 0x0nat]);
    if ranges_v6()[34].holds(v6_address(g)) {
        held_shares_groups(seq![0x2001nat, 0x0nat, 0xc633nat, 0x6400nat, 0x0nat, 0x0nat, 0x0nat, 0x0nat], 56, g);
    }
    assert(expanded(seq![0x2001nat, 0x0nat, 0xcb00nat, 0x7100nat], seq![]) =~= seq![0x2001nat, 0x0nat, 0xcb00nat, 0x7100nat, 0x0nat, 0x0nat, 0x0nat, 0x0nat]);
    if ranges_v6()[35].holds(v6_address(g)) {
        held_shares_groups(seq![0x2001nat, 0x0nat, 0xcb00nat, 0x7100nat, 0x0nat, 0x0nat, 0x0nat, 0x0nat], 56, g);
    }
    assert(expanded(seq![0x2001nat, 0x0nat, 0xe000nat], seq![]) =~= seq![0x2001nat, 0x0nat, 0xe000nat, 0x0nat, 0x0nat, 0x0nat, 0x0nat, 0x0nat]);
    if ranges_v6()[36].holds(v6_address(g)) {
        held_shares_groups(seq![0x2001nat, 0x0nat, 0xe000nat, 0x0nat, 0x0nat, 0x0nat, 0x0nat, 0x0nat], 36, g);
    }
    assert(expanded(seq![0x2001nat, 0x0nat, 0xf000nat], seq![]) =~= seq![0x2001nat, 0x0nat, 0xf000nat, 0x0nat, 0x0nat, 0x0nat, 0x0nat, 0x0nat]);
    if ranges_v6()[37].holds(v6_address(g)) {
        held_shares_groups(seq![0x2001nat, 0x0nat, 0xf000nat, 0x0nat, 0x0nat, 0x0nat, 0x0nat, 0x0nat], 36, g);
    }
    assert(expanded(seq![0x2001nat, 0x0nat, 0xffffnat, 0xffffnat], seq![]) =~= seq![0x2001nat, 0x0nat, 0xffffnat, 0xffffnat, 0x0nat, 0x0nat, 0x0nat, 0x0nat]);
    if ranges_v6()[38].holds(v6_address(g)) {
        held_shares_groups(seq![0x2001nat, 0x0nat, 0xffffnat, 0xffffnat, 0x0nat, 0x0nat, 0x0nat, 0x0nat], 64, g);
    }
}

proof fn lower_value(g: Seq<nat>)
    requires
        eight(g),
    ensures
        groups_value(g) <= u128::MAX,
        groups_value(g) / 0x1_0000_0000 == upper(g) * 0x1_0000_0000 + g[4] * 0x1_0000 + g[5],
        groups_value(g) == 0 ==> groups_value(g) / 0x1_0000_0000 == 0,
        groups_value(g) == 1 ==> groups_value(g) / 0x1_0000_0000 == 0,
{
    value_of(g);
    reveal_with_fuel(groups_value, 5);
    assert(g.drop_last() =~= g.take(7));
    assert(g.take(7).drop_last() =~= g.take(6));
    assert(g.take(6).drop_last() =~= g.take(5));
    assert(g.take(5).drop_last() =~= g.take(4));
    let four = groups_value(g.take(4));
    let six = (four * 0x1_0000 + g[4]) * 0x1_0000 + g[5];
    assert(groups_value(g) == (six * 0x1_0000 + g[6]) * 0x1_0000 + g[7]);
    assert(groups_value(g) / 0x1_0000_0000 == six);
    assert(six / 0x1_0000_0000 == four);
    assert(groups_value(g) / 0x1_0000_0000_0000_0000 == four);
}

proof fn plain_ranges(g: Seq<nat>)
    requires
        eight(g),
    ensures
        ({
            let address = v6_address(g);
            let low = upper(g) == 0 && g[4] == 0;
            &&& ranges_v6()[0].holds(address) ==> low && g[5] == 0
            &&& ranges_v6()[1].holds(address) ==> low && g[5] == 0
            &&& ranges_v6()[2].holds(address) == (low && g[5] == 0xffff)
            &&& ranges_v6()[3].holds(address) == (low && g[5] == 0)
            &&& ranges_v6()[4].holds(address) == (g[0] == 0x100 && g[1] == 0 && g[2] == 0 && g[3] == 0)
            &&& ranges_v6()[5].holds(address) == (g[0] == 0x2001 && 0x10 <= g[1] < 0x20)
            &&& ranges_v6()[6].holds(address) == (g[0] == 0x2001 && g[1] == 0xdb8)
            &&& ranges_v6()[7].holds(address) == (0xfc00 <= g[0] < 0xfe00)
            &&& ranges_v6()[8].holds(address) == (0xfe80 <= g[0] < 0xfec0)
            &&& ranges_v6()[9].holds(address) == (0xfec0 <= g[0] < 0xff00)
            &&& ranges_v6()[10].holds(address) == (0xff00 <= g[0])
        }),
{
    vstd::arithmetic::power2::lemma2_to64();
    vstd::arithmetic::power2::lemma2_to64_rest();
    lower_value(g);
    let t = upper(g);
    let r0 = seq![0x0nat, 0x0nat, 0x0nat, 0x0nat, 0x0nat, 0x0nat, 0x0nat, 0x0nat];
    assert(expanded(seq![], seq![]) =~= r0);
    mapped_value(r0);
    let r1 = seq![0x0nat, 0x0nat, 0x0nat, 0x0nat, 0x0nat, 0x0nat, 0x0nat, 0x1nat];
    assert(expanded(seq![], seq![0x1nat]) =~= r1);
    mapped_value(r1);
    let r2 = seq![0x0nat, 0x0nat, 0x0nat, 0x0nat, 0x0nat, 0xffffnat, 0x0nat, 0x0nat];
    assert(expanded(seq![], seq![0xffffnat, 0x0nat, 0x0nat]) =~= r2);
    mapped_value(r2);
    let r3 = seq![0x0nat, 0x0nat, 0x0nat, 0x0nat, 0x0nat, 0x0nat, 0x0nat, 0x0nat];
    assert(expanded(seq![], seq![]) =~= r3);
    mapped_value(r3);
    assert(t / 1 == t);
    assert(t / 0x10_0000_0000 == g[0] * 0x1000 + g[1] / 16);
    assert(t / 0x200_0000_0000_0000 == g[0] / 512);
    assert(t / 0x40_0000_0000_0000 == g[0] / 64);
    assert(t / 0x100_0000_0000_0000 == g[0] / 256);
    assert(t / 0x1_0000_0000 == g[0] * 0x1_0000 + g[1]);
    assert(expanded(seq![0x100nat], seq![]) =~= seq![0x100nat, 0x0nat, 0x0nat, 0x0nat, 0x0nat, 0x0nat, 0x0nat, 0x0nat]);
    held_by_upper(seq![0x100nat, 0x0nat, 0x0nat, 0x0nat, 0x0nat, 0x0nat, 0x0nat, 0x0nat], 64, g, 0x1);
    assert(expanded(seq![0x2001nat, 0x10nat], seq![]) =~= seq![0x2001nat, 0x10nat, 0x0nat, 0x0nat, 0x0nat, 0x0nat, 0x0nat, 0x0nat]);
    held_by_upper(seq![0x2001nat, 0x10nat, 0x0nat, 0x0nat, 0x0nat, 0x0nat, 0x0nat, 0x0nat], 28, g, 0x10_0000_0000);
    assert(expanded(seq![0x2001nat, 0xdb8nat], seq![]) =~= seq![0x2001nat, 0xdb8nat, 0x0nat, 0x0nat, 0x0nat, 0x0nat, 0x0nat, 0x0nat]);
    held_by_upper(seq![0x2001nat, 0xdb8nat, 0x0nat, 0x0nat, 0x0nat, 0x0nat, 0x0nat, 0x0nat], 32, g, 0x1_0000_0000);
    assert(expanded(seq![0xfc00nat], seq![]) =~= seq![0xfc00nat, 0x0nat, 0x0nat, 0x0nat, 0x0nat, 0x0nat, 0x0nat, 0x0nat]);
    held_by_upper(seq![0xfc00nat, 0x0nat, 0x0nat, 0x0nat, 0x0nat, 0x0nat, 0x0nat, 0x0nat], 7, g, 0x200_0000_0000_0000);
    assert(expanded(seq![0xfe80nat], seq![]) =~= seq![0xfe80nat, 0x0nat, 0x0nat, 0x0nat, 0x0nat, 0x0nat, 0x0nat, 0x0nat]);
    held_by_upper(seq![0xfe80nat, 0x0nat, 0x0nat, 0x0nat, 0x0nat, 0x0nat, 0x0nat, 0x0nat], 10, g, 0x40_0000_0000_0000);
    assert(expanded(seq![0xfec0nat], seq![]) =~= seq![0xfec0nat, 0x0nat, 0x0nat, 0x0nat, 0x0nat, 0x0nat, 0x0nat, 0x0nat]);
    held_by_upper(seq![0xfec0nat, 0x0nat, 0x0nat, 0x0nat, 0x0nat, 0x0nat, 0x0nat, 0x0nat], 10, g, 0x40_0000_0000_0000);
    assert(expanded(seq![0xff00nat], seq![]) =~= seq![0xff00nat, 0x0nat, 0x0nat, 0x0nat, 0x0nat, 0x0nat, 0x0nat, 0x0nat]);
    held_by_upper(seq![0xff00nat, 0x0nat, 0x0nat, 0x0nat, 0x0nat, 0x0nat, 0x0nat, 0x0nat], 8, g, 0x100_0000_0000_0000);
    let address = v6_address(g);
    let v = groups_value(g);
    assert(v / 1 == v);
    assert(ranges_v6()[0].holds(address) == (v == 0));
    assert(groups_value(r1) == 1 && pow2(0) == 1);
    assert(ranges_v6()[1] == (Prefix::V6 { address: 1, len: 128 }));
    assert(1nat / 1 == 1);
    assert(ranges_v6()[1].holds(address) == (v == 1));
    assert(ranges_v6()[2].holds(address) == (v / 0x1_0000_0000 == 0xffff));
    assert(ranges_v6()[3].holds(address) == (v / 0x1_0000_0000 == 0));
    assert(ranges_v6()[4].holds(address) == (t == 0x100_0000_0000_0000));
    assert(ranges_v6()[5].holds(address) == (g[0] * 0x1000 + g[1] / 16 == 0x200_1001));
    assert(ranges_v6()[6].holds(address) == (g[0] == 0x2001 && g[1] == 0xdb8));
    assert(ranges_v6()[7].holds(address) == (0xfc00 <= g[0] < 0xfe00));
    assert(ranges_v6()[8].holds(address) == (0xfe80 <= g[0] < 0xfec0));
    assert(ranges_v6()[9].holds(address) == (0xfec0 <= g[0] < 0xff00));
    assert(ranges_v6()[10].holds(address) == (0xff00 <= g[0]));
}

/// Which IPv6 addresses are bogons that wrap no IPv4 address, in so many groups: those
/// below the mapped ones, the mapped ones, the discard range, the overlay range,
/// documentation, unique local, link-local, site-local and multicast addresses. Every
/// other address is public.
pub proof fn law_public_ipv6_addresses_are_no_bogons(g: Seq<nat>)
    requires
        eight(g),
        g[0] != 0x2002,
        !(g[0] == 0x2001 && g[1] == 0),
    ensures
        bogon_address(v6_address(g)) == {
            ||| g[0] == 0 && g[1] == 0 && g[2] == 0 && g[3] == 0 && g[4] == 0 && (g[5] == 0 || g[5]
                == 0xffff)
            ||| g[0] == 0x100 && g[1] == 0 && g[2] == 0 && g[3] == 0
            ||| g[0] == 0x2001 && 0x10 <= g[1] <= 0x1f
            ||| g[0] == 0x2001 && g[1] == 0xdb8
            ||| 0xfc00 <= g[0] <= 0xfdff
            ||| 0xfe80 <= g[0] <= 0xfebf
            ||| 0xfec0 <= g[0] <= 0xfeff
            ||| 0xff00 <= g[0]
        },
{
    plain_ranges(g);
    wrapped_6to4_a(g);
    wrapped_6to4_b(g);
    wrapped_teredo_a(g);
    wrapped_teredo_b(g);
    let address = v6_address(g);
    let table = ranges_v6();
    assert(ranges(address) == table);
    assert(table.len() == 39);
    if bogon_address(address) {
        let i = choose|i: int| 0 <= i < table.len() && (#[trigger] table[i]).holds(address);
        assert(i == 0 || i == 1 || i == 2 || i == 3 || i == 4 || i == 5 || i == 6 || i == 7
            || i == 8 || i == 9 || i == 10 || i == 11 || i == 12 || i == 13 || i == 14 || i == 15
            || i == 16 || i == 17 || i == 18 || i == 19 || i == 20 || i == 21 || i == 22 || i == 23
            || i == 24 || i == 25 || i == 26 || i == 27 || i == 28 || i == 29 || i == 30 || i == 31
            || i == 32 || i == 33 || i == 34 || i == 35 || i == 36 || i == 37 || i == 38);
    } else {
        assert(!table[2].holds(address) && !table[3].holds(address) && !table[4].holds(address)
            && !table[5].holds(address) && !table[6].holds(address) && !table[7].holds(address)
            && !table[8].holds(address) && !table[9].holds(address) && !table[10].holds(address));
    }
}

/// Which 6to4 and Teredo addresses are bogons, in so many octets of the IPv4 address
/// they wrap: those that wrap a bogon, but for one of the shared range.
pub proof fn law_wrapped_bogons_octet_by_octet(
    g: Seq<nat>,
    h: Seq<nat>,
    a: nat,
    b: nat,
    c: nat,
    d: nat,
)
    requires
        eight(g),
        eight(h),
        octets(a, b, c, d),
        g[0] == 0x2002,
        g[1] == a * 256 + b,
        g[2] == c * 256 + d,
        h[0] == 0x2001,
        h[1] == 0,
        h[2] == a * 256 + b,
        h[3] == c * 256 + d,
    ensures
        bogon_address(v6_address(h)) == bogon_address(v6_address(g)),
        bogon_address(v6_address(g)) == {
            ||| a == 0 || a == 10 || a == 127 || a >= 224
            ||| a == 169 && b == 254
            ||| a == 172 && 16 <= b <= 31
            ||| a == 192 && b == 0 && (c == 0 || c == 2)
            ||| a == 192 && b == 168
            ||| a == 198 && (b == 18 || b == 19)
            ||| a == 198 && b == 51 && c == 100
            ||| a == 203 && b == 0 && c == 113
        },
{
    law_6to4_wraps_the_ipv4_bogons(g, a, b, c, d);
    law_teredo_wraps_the_ipv4_bogons(h, a, b, c, d);
}

}
