//! Addresses and ranges of addresses.

use vstd::arithmetic::div_mod::lemma_basic_div;
use vstd::arithmetic::power2::pow2;
use vstd::prelude::*;

use crate::text::{decimal_text, hex_text};

verus! {

/// An address, as the number its bytes spell.
#[derive(Clone, Copy, PartialEq, Eq, Debug, Structural)]
pub enum Address {
    V4(u32),
    V6(u128),
}

/// A range of addresses: those that share the leading `len` bits of `address`.
#[derive(Clone, Copy, PartialEq, Eq, Debug, Structural)]
pub enum Prefix {
    V4 { address: u32, len: u8 },
    V6 { address: u128, len: u8 },
}

/// The number four octets spell.
pub open spec fn v4_value(a: nat, b: nat, c: nat, d: nat) -> nat {
    a * 0x100_0000 + b * 0x1_0000 + c * 0x100 + d
}

/// Four octets in dotted decimal notation.
pub open spec fn v4_text(a: nat, b: nat, c: nat, d: nat) -> Seq<char> {
    decimal_text(a) + seq!['.'] + decimal_text(b) + seq!['.'] + decimal_text(c) + seq!['.']
        + decimal_text(d)
}

pub open spec fn octets(a: nat, b: nat, c: nat, d: nat) -> bool {
    a < 256 && b < 256 && c < 256 && d < 256
}

/// The number a run of sixteen-bit groups spells.
pub open spec fn groups_value(groups: Seq<nat>) -> nat
    decreases groups.len(),
{
    if groups.len() == 0 {
        0
    } else {
        groups_value(groups.drop_last()) * 0x1_0000 + groups.last()
    }
}

/// Sixteen-bit groups in hexadecimal notation, with a colon between two of them.
pub open spec fn groups_text(groups: Seq<nat>) -> Seq<char>
    decreases groups.len(),
{
    if groups.len() == 0 {
        Seq::empty()
    } else if groups.len() == 1 {
        hex_text(groups[0])
    } else {
        groups_text(groups.drop_last()) + seq![':'] + hex_text(groups.last())
    }
}

/// The eight groups that `head::tail` stands for.
pub open spec fn expanded(head: Seq<nat>, tail: Seq<nat>) -> Seq<nat> {
    head + Seq::new((8 - head.len() - tail.len()) as nat, |i: int| 0nat) + tail
}

pub open spec fn v6_value(head: Seq<nat>, tail: Seq<nat>) -> nat {
    groups_value(expanded(head, tail))
}

pub open spec fn v6_text(head: Seq<nat>, tail: Seq<nat>) -> Seq<char> {
    groups_text(head) + seq![':', ':'] + groups_text(tail)
}

pub open spec fn groups(head: Seq<nat>, tail: Seq<nat>) -> bool {
    &&& head.len() + tail.len() <= 7
    &&& forall|i: int| 0 <= i < head.len() ==> #[trigger] head[i] < 0x1_0000
    &&& forall|i: int| 0 <= i < tail.len() ==> #[trigger] tail[i] < 0x1_0000
}

/// Whether a character can stand in the text of an address: a hexadecimal digit,
/// a dot or a colon.
pub open spec fn address_char(c: char) -> bool {
    ||| '0' <= c <= '9'
    ||| 'a' <= c <= 'f'
    ||| 'A' <= c <= 'F'
    ||| c == '.'
    ||| c == ':'
}

/// Whether a text is made as that of an address is: of digits that dots or colons
/// part.
pub open spec fn address_like(text: Seq<char>) -> bool {
    &&& forall|i: int| 0 <= i < text.len() ==> address_char(#[trigger] text[i])
    &&& text.contains('.') || text.contains(':')
}

/// Sixteen-bit groups that make up a whole address.
pub open spec fn whole_groups(all: Seq<nat>) -> bool {
    &&& all.len() == 8
    &&& forall|i: int| 0 <= i < all.len() ==> #[trigger] all[i] < 0x1_0000
}

/// What the text of an address reads as.
pub uninterp spec fn parsed_address(text: Seq<char>) -> Option<Address>;

/// `str::parse` into the standard library's address type, by way of
/// `ipnet::IpNet::new`, which holds such an address unchanged. Dotted decimal
/// octets read as the number they spell, and so do eight hexadecimal groups, or
/// fewer around one `::`. A text with another character than a hexadecimal digit,
/// a dot or a colon in it is no address, nor is one without a dot or a colon. What
/// the other texts read as is not stated.
#[verifier::external_body]
pub(crate) fn parse_address(ip: &str) -> (r: Option<Address>)
    ensures
        r == parsed_address(ip@),
        forall|a: nat, b: nat, c: nat, d: nat|
            octets(a, b, c, d) && ip@ == #[trigger] v4_text(a, b, c, d) ==> r == Some(
                Address::V4(v4_value(a, b, c, d) as u32),
            ),
        forall|head: Seq<nat>, tail: Seq<nat>|
            groups(head, tail) && ip@ == #[trigger] v6_text(head, tail) ==> r == Some(
                Address::V6(v6_value(head, tail) as u128),
            ),
        forall|all: Seq<nat>|
            #![trigger groups_text(all)]
            whole_groups(all) && ip@ == groups_text(all) ==> r == Some(
                Address::V6(groups_value(all) as u128),
            ),
        r is Some ==> address_like(ip@),
{
    match ipnet::IpNet::new(ip.parse().ok()?, 0).ok()? {
        ipnet::IpNet::V4(net) => Some(Address::V4(u32::from(net.addr()))),
        ipnet::IpNet::V6(net) => Some(Address::V6(u128::from(net.addr()))),
    }
}

pub open spec fn slash_text(len: nat) -> Seq<char> {
    seq!['/'] + decimal_text(len)
}

pub open spec fn range_v4(a: nat, b: nat, c: nat, d: nat, len: nat) -> Prefix {
    Prefix::V4 { address: v4_value(a, b, c, d) as u32, len: len as u8 }
}

pub open spec fn range_v6(head: Seq<nat>, tail: Seq<nat>, len: nat) -> Prefix {
    Prefix::V6 { address: v6_value(head, tail) as u128, len: len as u8 }
}

/// Whether a text is a range in CIDR notation: an address in dotted decimal, or
/// in hexadecimal groups around one `::`, then a slash and a length in decimal.
#[verifier::opaque]
pub open spec fn spells(text: Seq<char>, prefix: Prefix) -> bool {
    ||| exists|a: nat, b: nat, c: nat, d: nat, len: nat|
        octets(a, b, c, d) && len <= 32 && text == #[trigger] v4_text(a, b, c, d)
            + #[trigger] slash_text(len) && prefix == range_v4(a, b, c, d, len)
    ||| exists|head: Seq<nat>, tail: Seq<nat>, len: nat|
        groups(head, tail) && len <= 128 && text == #[trigger] v6_text(head, tail)
            + #[trigger] slash_text(len) && prefix == range_v6(head, tail, len)
}

pub open spec fn is_range(text: Seq<char>) -> bool {
    exists|prefix: Prefix| spells(text, prefix)
}

/// What the text of a range reads as.
pub uninterp spec fn parsed_prefix(text: Seq<char>) -> Option<Prefix>;

/// `str::parse` into `ipnet::IpNet`. A length is at most the number of bits of
/// its address, and CIDR notation reads as the range it spells. What the other
/// notations read as is not stated.
#[verifier::external_body]
pub(crate) fn parse_prefix(cidr: &str) -> (r: Option<Prefix>)
    ensures
        r == parsed_prefix(cidr@),
        r matches Some(prefix) ==> prefix.valid(),
        forall|prefix: Prefix| #[trigger] spells(cidr@, prefix) ==> r == Some(prefix),
{
    match cidr.parse::<ipnet::IpNet>().ok()? {
        ipnet::IpNet::V4(net) => {
            Some(Prefix::V4 { address: u32::from(net.addr()), len: net.prefix_len() })
        },
        ipnet::IpNet::V6(net) => {
            Some(Prefix::V6 { address: u128::from(net.addr()), len: net.prefix_len() })
        },
    }
}

impl Prefix {
    /// A length is at most the number of bits of its address.
    pub open spec fn valid(self) -> bool {
        match self {
            Prefix::V4 { len, .. } => len <= 32,
            Prefix::V6 { len, .. } => len <= 128,
        }
    }

    /// Whether an address of the same family shares the leading bits.
    pub open spec fn holds(self, other: Address) -> bool {
        match (self, other) {
            (Prefix::V4 { address, len }, Address::V4(other)) => {
                let size = pow2((32 - len) as nat);
                address as nat / size == other as nat / size
            },
            (Prefix::V6 { address, len }, Address::V6(other)) => {
                let size = pow2((128 - len) as nat);
                address as nat / size == other as nat / size
            },
            _ => false,
        }
    }

    /// Whether the range has an address in it.
    pub fn contains(&self, other: &Address) -> (r: bool)
        requires
            self.valid(),
        ensures
            r == self.holds(*other),
    {
        match (*self, *other) {
            (Prefix::V4 { address, len }, Address::V4(other)) => {
                if len == 0 {
                    proof {
                        vstd::arithmetic::power2::lemma2_to64();
                        lemma_basic_div(address as int, pow2(32) as int);
                        lemma_basic_div(other as int, pow2(32) as int);
                    }
                    return true;
                }
                let shift: u32 = 32 - len as u32;
                proof {
                    vstd::bits::lemma_u32_shr_is_div(address, shift);
                    vstd::bits::lemma_u32_shr_is_div(other, shift);
                }
                address >> shift == other >> shift
            },
            (Prefix::V6 { address, len }, Address::V6(other)) => {
                if len == 0 {
                    proof {
                        vstd::arithmetic::power2::lemma2_to64();
                        vstd::arithmetic::power2::lemma_pow2_adds(64, 64);
                        assert(pow2(128) == 0x1_0000_0000_0000_0000 * 0x1_0000_0000_0000_0000);
                        lemma_basic_div(address as int, pow2(128) as int);
                        lemma_basic_div(other as int, pow2(128) as int);
                    }
                    return true;
                }
                let shift: u128 = 128 - len as u128;
                proof {
                    vstd::bits::lemma_u128_shr_is_div(address, shift);
                    vstd::bits::lemma_u128_shr_is_div(other, shift);
                }
                address >> shift == other >> shift
            },
            _ => false,
        }
    }
}

}
