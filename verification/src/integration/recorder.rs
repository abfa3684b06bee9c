//! A recording reverse proxy's decisions: where a request goes, what is
//! remembered of it, and what is handed back.
//!
//! It stands in front of the API, so what was sent is an observation rather than
//! an inference. It points a redirect back through itself, so the request that
//! follows one is on the record too.

use vstd::hash_map::StringHashMap;
use vstd::prelude::*;

use crate::json::{is_json, is_json_text, render, rendered, Json, JsonView};
use crate::text::{concat, contains, decimal, decimal_text, find_second_word, first_occurrence};
use crate::text::{ascii_lower, first_occurrence_is, is_ascii_text};
use crate::text::{halves, halves_are, halves_lack, hex_digit, lines};
use crate::text::law_a_text_stands_where_it_is_a_part;
use crate::text::{lossy_text, lowercase, lowercase_text, maybe_text};
use crate::text::{occurs_at, read_lossy, read_utf8, same, second_word};
use crate::text::{split_lines, split_once, starts_with, strip_prefix, texts, trim, trimmed};
use crate::text::{trim_end_slashes, utf8_text, without_end_slashes};
use crate::transport::pair_texts;

verus! {

/// A request under this prefix follows a redirect the API answered with: the
/// rest of its path is the URL to fetch, in hexadecimal. Everything else goes to
/// the API.
pub const VIA: &'static str = "/__via/";

/// Nothing larger is proxied at all.
pub const MAX_BODY: usize = 33_554_432;

/// The most of an answer that is remembered.
pub const MAX_CAPTURED_BODY: usize = 1_048_576;

/// The longest head of a request that is read.
pub const MAX_HEAD: usize = 65_536;

/// What is remembered of a request that was made. Whether the key was carried is
/// a flag, so that the key itself is never handed to anyone.
#[derive(Clone, Debug)]
pub struct Fact {
    pub origin: String,
    pub path: String,
    pub carried_key: bool,
}

pub struct FactView {
    pub origin: Seq<char>,
    pub path: Seq<char>,
    pub carried_key: bool,
}

impl View for Fact {
    type V = FactView;

    open spec fn view(&self) -> FactView {
        FactView { origin: self.origin@, path: self.path@, carried_key: self.carried_key }
    }
}

pub open spec fn fact_views(facts: Seq<Fact>) -> Seq<FactView> {
    facts.map_values(|fact: Fact| fact@)
}

/// One request that reached the recorder.
#[derive(Debug)]
pub struct Request {
    pub target: String,
    pub headers: Vec<(String, String)>,
}

/// What the recorder answers.
#[derive(Debug)]
pub struct Reply {
    pub status: u16,
    pub headers: Vec<(String, String)>,
    pub body: Vec<u8>,
}

/// The recorder: where it stands, what it stands in front of, and what it
/// remembers.
pub struct Recorder {
    /// What the client under test is pointed at.
    pub base_url: String,
    pub upstream: String,
    pub key: Option<String>,
    pub facts: Vec<Fact>,
    pub bodies: StringHashMap<String>,
}

/// The bodies that are remembered, by path.
pub open spec fn body_texts(bodies: Map<Seq<char>, String>) -> Map<Seq<char>, Seq<char>> {
    bodies.map_values(|body: String| body@)
}

/// A text and whatever part of it stands in front of a separator, or the whole
/// of it.
pub open spec fn before_or(s: Seq<char>, separator: Seq<char>) -> Seq<char> {
    match halves(s, separator) {
        Some((before, _)) => before,
        None => s,
    }
}

/// A URL without its query.
pub open spec fn bare(url: Seq<char>) -> Seq<char> {
    before_or(url, "?"@)
}

/// A URL's scheme, `http` when it has none.
pub open spec fn scheme_of(url: Seq<char>) -> Seq<char> {
    match halves(bare(url), "://"@) {
        Some((scheme, _)) => scheme,
        None => "http"@,
    }
}

/// A URL's host and path, without its query.
pub open spec fn rest_of(url: Seq<char>) -> Seq<char> {
    match halves(bare(url), "://"@) {
        Some((_, rest)) => rest,
        None => bare(url),
    }
}

/// A URL's origin: its scheme and its host.
pub open spec fn origin_of(url: Seq<char>) -> Seq<char> {
    scheme_of(url) + "://"@ + before_or(rest_of(url), "/"@)
}

/// A URL's path, without its query.
pub open spec fn path_of(url: Seq<char>) -> Seq<char> {
    match halves(rest_of(url), "/"@) {
        Some((_, path)) => "/"@ + path,
        None => "/"@,
    }
}

/// A URL's origin and its path, with the query dropped: a query that carries a
/// signature is exactly what must not end up in either.
pub fn split(url: &str) -> (r: (String, String))
    ensures
        r.0@ == origin_of(url@),
        r.1@ == path_of(url@),
{
    let bare = match split_once(url, "?") {
        Some((bare, _)) => bare,
        None => url.to_owned(),
    };
    let (scheme, rest) = match split_once(bare.as_str(), "://") {
        Some((scheme, rest)) => (scheme, rest),
        None => ("http".to_owned(), bare),
    };
    let (host, path) = match split_once(rest.as_str(), "/") {
        Some((host, path)) => (host, concat("/", path.as_str())),
        None => (rest, "/".to_owned()),
    };
    let mut origin = concat(scheme.as_str(), "://");
    origin.append(host.as_str());
    (origin, path)
}

proof fn parts_lack(s: Seq<char>, separator: Seq<char>, c: char)
    requires
        !s.contains(c),
    ensures
        halves(s, separator) matches Some((before, after)) ==> !before.contains(c)
            && !after.contains(c),
{
    first_occurrence_is(s, separator);
    if let Some((before, after)) = halves(s, separator) {
        let at = first_occurrence(s, separator)->0;
        if before.contains(c) {
            let k = before.index_of(c);
            assert(s[k] == c);
        }
        if after.contains(c) {
            let k = after.index_of(c);
            assert(s[k + at + separator.len()] == c);
        }
    }
}

proof fn sum_lacks(a: Seq<char>, b: Seq<char>, c: char)
    requires
        !a.contains(c),
        !b.contains(c),
    ensures
        !(a + b).contains(c),
{
    if (a + b).contains(c) {
        let k = (a + b).index_of(c);
        if k < a.len() {
            assert(a[k] == c);
        } else {
            assert(b[k - a.len()] == c);
        }
    }
}

/// A query ends up in neither part of a split URL.
pub proof fn law_a_query_ends_up_in_neither_part(url: Seq<char>)
    ensures
        !origin_of(url).contains('?'),
        !path_of(url).contains('?'),
{
    reveal_strlit("?");
    reveal_strlit("/");
    reveal_strlit("://");
    reveal_strlit("http");
    halves_lack(url, "?"@);
    parts_lack(bare(url), "://"@, '?');
    parts_lack(rest_of(url), "/"@, '?');
    sum_lacks(scheme_of(url), "://"@, '?');
    sum_lacks(scheme_of(url) + "://"@, before_or(rest_of(url), "/"@), '?');
    if let Some((_, path)) = halves(rest_of(url), "/"@) {
        sum_lacks("/"@, path, '?');
    }
}

proof fn split_at_query(s: Seq<char>, query: Seq<char>)
    requires
        !s.contains('?'),
    ensures
        bare(s) == s,
        bare(s + "?"@ + query) == s,
{
    reveal_strlit("?");
    halves_are(s, "?"@, query);
}

proof fn split_bare(scheme: Seq<char>, host: Seq<char>, tail: Seq<char>, url: Seq<char>)
    requires
        !scheme.contains(':'),
        bare(url) == scheme + "://"@ + (host + tail),
    ensures
        scheme_of(url) == scheme,
        rest_of(url) == host + tail,
{
    reveal_strlit("://");
    halves_are(scheme, "://"@, host + tail);
}

/// A URL is split into its scheme with its host, and its path, with or without a
/// path of its own and with or without a query.
pub proof fn law_a_url_is_split_into_its_parts(
    scheme: Seq<char>,
    host: Seq<char>,
    path: Seq<char>,
    query: Seq<char>,
)
    requires
        !scheme.contains(':'),
        !scheme.contains('?'),
        !host.contains('/'),
        !host.contains('?'),
        !path.contains('?'),
    ensures
        origin_of(scheme + "://"@ + host) == scheme + "://"@ + host,
        path_of(scheme + "://"@ + host) == "/"@,
        origin_of(scheme + "://"@ + host + "?"@ + query) == scheme + "://"@ + host,
        path_of(scheme + "://"@ + host + "?"@ + query) == "/"@,
        origin_of(scheme + "://"@ + host + "/"@ + path) == scheme + "://"@ + host,
        path_of(scheme + "://"@ + host + "/"@ + path) == "/"@ + path,
        origin_of(scheme + "://"@ + host + "/"@ + path + "?"@ + query) == scheme + "://"@ + host,
        path_of(scheme + "://"@ + host + "/"@ + path + "?"@ + query) == "/"@ + path,
{
    reveal_strlit("://");
    reveal_strlit("/");
    let short = scheme + "://"@ + host;
    let long = scheme + "://"@ + host + "/"@ + path;
    sum_lacks(scheme, "://"@, '?');
    sum_lacks(scheme + "://"@, host, '?');
    sum_lacks(short, "/"@, '?');
    sum_lacks(short + "/"@, path, '?');
    split_at_query(short, query);
    split_at_query(long, query);
    halves_are(host, "/"@, path);
    let none = Seq::<char>::empty();
    assert(host + none =~= host);
    assert(short =~= scheme + "://"@ + (host + none));
    split_bare(scheme, host, none, short);
    split_bare(scheme, host, none, short + "?"@ + query);
    let tail = "/"@ + path;
    assert(host + tail =~= host + "/"@ + path);
    assert(long =~= scheme + "://"@ + (host + tail));
    split_bare(scheme, host, tail, long);
    split_bare(scheme, host, tail, long + "?"@ + query);
}

/// Bytes in hexadecimal, two digits each.
pub open spec fn hex_of(bytes: Seq<u8>) -> Seq<char>
    decreases bytes.len(),
{
    if bytes.len() == 0 {
        Seq::empty()
    } else {
        seq![hex_digit(bytes[0] as int / 16), hex_digit(bytes[0] as int % 16)] + hex_of(
            bytes.skip(1),
        )
    }
}

fn lower_hex(n: u8) -> (c: char)
    requires
        n < 16,
    ensures
        c == hex_digit(n as int),
{
    if n < 10 {
        (48 + n) as char
    } else {
        (87 + n) as char
    }
}

/// A text in hexadecimal, which has no character that a path would escape.
pub fn to_hex(value: &str) -> (r: String)
    ensures
        r@ == hex_of(vstd::utf8::encode_utf8(value@)),
{
    let bytes = value.as_bytes();
    let mut r = String::new();
    assert(bytes@.skip(0) =~= bytes@);
    for i in 0..bytes.len()
        invariant
            r@ + hex_of(bytes@.skip(i as int)) == hex_of(bytes@),
    {
        let b: u8 = bytes[i];
        let ghost before = r@;
        assert(bytes@.skip(i as int).skip(1) =~= bytes@.skip(i + 1));
        r.push(lower_hex(b / 16));
        r.push(lower_hex(b % 16));
        assert(r@ + hex_of(bytes@.skip(i + 1)) =~= before + hex_of(bytes@.skip(i as int)));
    }
    assert(bytes@.skip(bytes@.len() as int) =~= Seq::empty());
    assert(r@ + hex_of(Seq::empty()) =~= r@);
    r
}

/// The number a hexadecimal digit stands for, in either case.
pub open spec fn hex_value(b: u8) -> Option<u8> {
    if 48 <= b <= 57 {
        Some((b - 48) as u8)
    } else if 97 <= b <= 102 {
        Some((b - 87) as u8)
    } else if 65 <= b <= 70 {
        Some((b - 55) as u8)
    } else {
        None
    }
}

/// The byte that one or two hexadecimal digits stand for. A plus sign may take
/// the place of the first of two.
pub open spec fn hex_pair(first: u8, second: Option<u8>) -> Option<u8> {
    match second {
        None => hex_value(first),
        Some(second) => match hex_value(second) {
            None => None,
            Some(low) => if first == 43 {
                Some(low)
            } else {
                match hex_value(first) {
                    Some(high) => Some((high * 16 + low) as u8),
                    None => None,
                }
            },
        },
    }
}

/// The bytes that pairs of hexadecimal digits stand for. A pair that is none is
/// left out.
pub open spec fn unhexed(digits: Seq<u8>) -> Seq<u8>
    decreases digits.len(),
{
    if digits.len() == 0 {
        Seq::empty()
    } else {
        let byte = hex_pair(
            digits[0],
            if digits.len() > 1 {
                Some(digits[1])
            } else {
                None
            },
        );
        let rest = if digits.len() > 1 {
            unhexed(digits.skip(2))
        } else {
            Seq::empty()
        };
        match byte {
            Some(byte) => seq![byte] + rest,
            None => rest,
        }
    }
}

fn read_hex(b: u8) -> (r: Option<u8>)
    ensures
        r == hex_value(b),
{
    if 48 <= b && b <= 57 {
        Some(b - 48)
    } else if 97 <= b && b <= 102 {
        Some(b - 87)
    } else if 65 <= b && b <= 70 {
        Some(b - 55)
    } else {
        None
    }
}

fn read_pair(first: u8, second: Option<u8>) -> (r: Option<u8>)
    ensures
        r == hex_pair(first, second),
{
    match second {
        None => read_hex(first),
        Some(second) => match read_hex(second) {
            None => None,
            Some(low) => if first == 43 {
                Some(low)
            } else {
                match read_hex(first) {
                    Some(high) => Some(high * 16 + low),
                    None => None,
                }
            },
        },
    }
}

/// What was written in hexadecimal.
pub fn from_hex(value: &str) -> (r: String)
    ensures
        r@ == lossy_text(unhexed(vstd::utf8::encode_utf8(value@))),
        forall|text: Seq<char>|
            value@ == hex_of(#[trigger] vstd::utf8::encode_utf8(text)) ==> r@ == text,
{
    let digits = value.as_bytes();
    let mut bytes: Vec<u8> = Vec::new();
    let count: usize = digits.len();
    let mut i: usize = 0;
    assert(digits@.skip(0) =~= digits@);
    assert(bytes@ + unhexed(digits@) =~= unhexed(digits@));
    while i < count
        invariant
            count == digits@.len(),
            i <= count,
            bytes@ + unhexed(digits@.skip(i as int)) == unhexed(digits@),
        decreases count - i,
    {
        let ghost left = digits@.skip(i as int);
        let ghost before = bytes@;
        let second = if count - i > 1 {
            Some(digits[i + 1])
        } else {
            None
        };
        let pair = read_pair(digits[i], second);
        let end: usize = if count - i > 1 {
            i + 2
        } else {
            count
        };
        proof {
            if count - i > 1 {
                assert(left.skip(2) =~= digits@.skip(end as int));
            } else {
                assert(digits@.skip(end as int) =~= Seq::empty());
            }
        }
        match pair {
            Some(byte) => {
                bytes.push(byte);
            },
            None => {},
        }
        assert(bytes@ + unhexed(digits@.skip(end as int)) =~= before + unhexed(left));
        i = end;
    }
    assert(digits@.skip(count as int) =~= Seq::empty());
    assert(bytes@ + unhexed(Seq::empty()) =~= bytes@);
    let r = read_lossy(bytes.as_slice());
    proof {
        assert forall|text: Seq<char>|
            value@ == hex_of(#[trigger] vstd::utf8::encode_utf8(text)) implies r@ == text by {
            let original = vstd::utf8::encode_utf8(text);
            hex_is_ascii(original);
            encoded_ascii(hex_of(original));
            law_hex_reads_back(original);
            vstd::utf8::encode_utf8_valid_utf8(text);
            vstd::utf8::encode_utf8_decode_utf8(text);
        }
    }
    r
}

proof fn hex_is_ascii(bytes: Seq<u8>)
    ensures
        hex_of(bytes).len() == 2 * bytes.len(),
        forall|i: int| 0 <= i < hex_of(bytes).len() ==> (#[trigger] hex_of(bytes)[i] as u32) < 128,
    decreases bytes.len(),
{
    if bytes.len() > 0 {
        hex_is_ascii(bytes.skip(1));
        let rest = hex_of(bytes.skip(1));
        let all = hex_of(bytes);
        assert forall|i: int| 0 <= i < all.len() implies (#[trigger] all[i] as u32) < 128 by {
            if i >= 2 {
                assert(all[i] == rest[i - 2]);
            }
        }
    }
}

proof fn encoded_ascii_char(c: char)
    requires
        (c as u32) < 128,
    ensures
        vstd::utf8::encode_scalar(c as u32) == seq![c as u8],
{
    let scalar = c as u32;
    assert((scalar & 0x7F) as u8 == scalar as u8) by (bit_vector)
        requires
            scalar < 128,
    ;
    assert(vstd::utf8::encode_scalar(scalar) =~= seq![c as u8]);
}

/// ASCII text is encoded byte for byte.
proof fn encoded_ascii(text: Seq<char>)
    requires
        forall|i: int| 0 <= i < text.len() ==> (#[trigger] text[i] as u32) < 128,
    ensures
        vstd::utf8::encode_utf8(text) == text.map_values(|c: char| c as u8),
    decreases text.len(),
{
    let bytes = text.map_values(|c: char| c as u8);
    if text.len() > 0 {
        let rest = text.drop_first();
        assert forall|i: int| 0 <= i < rest.len() implies (#[trigger] rest[i] as u32) < 128 by {
            assert(rest[i] == text[i + 1]);
        }
        encoded_ascii(rest);
        encoded_ascii_char(text[0]);
        assert(bytes =~= seq![text[0] as u8] + rest.map_values(|c: char| c as u8));
    } else {
        assert(vstd::utf8::encode_utf8(text) =~= bytes);
    }
}

/// Hexadecimal has two digits for each byte, and nothing that a path would escape.
pub proof fn law_hex_is_two_digits_a_byte(bytes: Seq<u8>)
    ensures
        hex_of(bytes).len() == 2 * bytes.len(),
        forall|i: int|
            0 <= i < hex_of(bytes).len() ==> '0' <= #[trigger] hex_of(bytes)[i] <= '9' || 'a'
                <= hex_of(bytes)[i] <= 'f',
    decreases bytes.len(),
{
    if bytes.len() > 0 {
        law_hex_is_two_digits_a_byte(bytes.skip(1));
        assert forall|i: int| 0 <= i < hex_of(bytes).len() implies '0' <= #[trigger] hex_of(
            bytes,
        )[i] <= '9' || 'a' <= hex_of(bytes)[i] <= 'f' by {
            if i >= 2 {
                assert(hex_of(bytes)[i] == hex_of(bytes.skip(1))[i - 2]);
            }
        }
    }
}

/// What was written in hexadecimal reads back.
pub proof fn law_hex_reads_back(bytes: Seq<u8>)
    ensures
        unhexed(hex_of(bytes).map_values(|c: char| c as u8)) == bytes,
    decreases bytes.len(),
{
    let digits = hex_of(bytes).map_values(|c: char| c as u8);
    if bytes.len() > 0 {
        let b = bytes[0];
        let rest = bytes.skip(1);
        law_hex_reads_back(rest);
        let tail = hex_of(rest).map_values(|c: char| c as u8);
        assert(digits.skip(2) =~= tail);
        assert(digits[0] == hex_digit(b as int / 16) as u8);
        assert(digits[1] == hex_digit(b as int % 16) as u8);
        assert(hex_value(digits[0]) == Some((b / 16) as u8));
        assert(hex_value(digits[1]) == Some((b % 16) as u8));
        assert(seq![b] + rest =~= bytes);
    } else {
        assert(unhexed(digits) =~= bytes);
    }
}

/// What a recorder is and remembers, with its texts as sequences of characters.
pub struct RecorderView {
    pub base_url: Seq<char>,
    pub upstream: Seq<char>,
    pub key: Option<Seq<char>>,
    pub facts: Seq<FactView>,
    pub bodies: Map<Seq<char>, Seq<char>>,
}

impl View for Recorder {
    type V = RecorderView;

    open spec fn view(&self) -> RecorderView {
        RecorderView {
            base_url: self.base_url@,
            upstream: self.upstream@,
            key: maybe_text(self.key),
            facts: fact_views(self.facts@),
            bodies: body_texts(self.bodies@),
        }
    }
}

impl RecorderView {
    /// Where a request goes: to the URL it carries when it follows a redirect,
    /// and to the API otherwise.
    pub open spec fn target(self, target: Seq<char>) -> Seq<char> {
        if occurs_at(target, VIA@, 0) {
            lossy_text(unhexed(vstd::utf8::encode_utf8(target.skip(VIA@.len() as int))))
        } else {
            self.upstream + target
        }
    }

    /// Whether a request carries the key, in its URL or in a header.
    pub open spec fn carries(self, url: Seq<char>, headers: Seq<(Seq<char>, Seq<char>)>) -> bool {
        self.key matches Some(key) && (first_occurrence(url, key) is Some || exists|i: int|
            0 <= i < headers.len() && first_occurrence((#[trigger] headers[i]).1, key) is Some)
    }

    /// What is remembered of a request.
    pub open spec fn noted(
        self,
        url: Seq<char>,
        headers: Seq<(Seq<char>, Seq<char>)>,
    ) -> RecorderView {
        RecorderView {
            facts: self.facts.push(
                FactView {
                    origin: origin_of(url),
                    path: path_of(url),
                    carried_key: self.carries(url, headers),
                },
            ),
            ..self
        }
    }

    /// What is remembered of an answer: a JSON body that is not too large, as the
    /// text it is.
    pub open spec fn captured(
        self,
        url: Seq<char>,
        headers: Seq<(Seq<char>, Seq<char>)>,
        body: Seq<u8>,
    ) -> RecorderView {
        if serves_json(headers) && body.len() <= MAX_CAPTURED_BODY {
            match utf8_text(body) {
                Some(text) => RecorderView {
                    bodies: self.bodies.insert(path_of(url), text),
                    ..self
                },
                None => self,
            }
        } else {
            self
        }
    }

    /// The headers of an answer that are handed on. A redirect is pointed back
    /// at the recorder.
    pub open spec fn relayed(
        self,
        content_type: Option<Seq<char>>,
        retry_after: Option<Seq<char>>,
        location: Option<Seq<char>>,
    ) -> Seq<(Seq<char>, Seq<char>)> {
        header("content-type"@, content_type) + header("retry-after"@, retry_after) + header(
            "location"@,
            match location {
                Some(location) => Some(
                    self.base_url + VIA@ + hex_of(vstd::utf8::encode_utf8(location)),
                ),
                None => None,
            },
        )
    }
}

/// A header that is there only when it has a value.
pub open spec fn header(name: Seq<char>, value: Option<Seq<char>>) -> Seq<(Seq<char>, Seq<char>)> {
    match value {
        Some(value) => seq![(name, value)],
        None => Seq::empty(),
    }
}

/// Whether headers say that a body is JSON.
pub open spec fn serves_json(headers: Seq<(Seq<char>, Seq<char>)>) -> bool {
    exists|i: int|
        0 <= i < headers.len() && (#[trigger] headers[i]).0 == "content-type"@ && occurs_at(
            headers[i].1,
            "application/json"@,
            0,
        )
}

fn push_header(headers: &mut Vec<(String, String)>, name: &str, value: Option<String>)
    ensures
        pair_texts(final(headers)@) == pair_texts(old(headers)@) + header(
            name@,
            maybe_text(value),
        ),
{
    match value {
        Some(value) => {
            headers.push((name.to_owned(), value));
        },
        None => {},
    }
    assert(pair_texts(headers@) =~= pair_texts(old(headers)@) + header(name@, maybe_text(value)));
}

/// Whether a header belongs to one hop: the host is the one a URL implies, and
/// the others describe a body that is not handed on.
pub open spec fn of_this_hop(name: Seq<char>) -> bool {
    ||| name == "host"@
    ||| name == "connection"@
    ||| name == "content-length"@
    ||| name == "transfer-encoding"@
    ||| name == "accept-encoding"@
}

/// The headers that go on with a request.
pub open spec fn outbound(headers: Seq<(Seq<char>, Seq<char>)>) -> Seq<(Seq<char>, Seq<char>)>
    decreases headers.len(),
{
    if headers.len() == 0 {
        Seq::empty()
    } else if of_this_hop(headers.last().0) {
        outbound(headers.drop_last())
    } else {
        outbound(headers.drop_last()).push(headers.last())
    }
}

impl Request {
    /// The headers that go on with this request.
    pub fn outbound(&self) -> (r: Vec<(String, String)>)
        ensures
            pair_texts(r@) == outbound(pair_texts(self.headers@)),
    {
        let ghost all = pair_texts(self.headers@);
        let mut r: Vec<(String, String)> = Vec::new();
        assert(pair_texts(r@) =~= Seq::empty());
        for i in 0..self.headers.len()
            invariant
                all == pair_texts(self.headers@),
                pair_texts(r@) == outbound(all.take(i as int)),
        {
            assert(all.take(i + 1).drop_last() =~= all.take(i as int));
            let name = self.headers[i].0.as_str();
            if !(same(name, "host") || same(name, "connection") || same(name, "content-length")
                || same(name, "transfer-encoding") || same(name, "accept-encoding")) {
                let ghost before = r@;
                r.push((self.headers[i].0.clone(), self.headers[i].1.clone()));
                assert(pair_texts(r@) =~= pair_texts(before).push(all[i as int]));
            }
        }
        assert(all.take(all.len() as int) =~= all);
        r
    }
}

/// The body of a failure of the recorder itself.
pub open spec fn gateway_body(message: Seq<char>) -> Seq<char> {
    rendered(JsonView::Object(seq![("error"@, JsonView::Text(message))]))
}

pub struct ReplyView {
    pub status: u16,
    pub headers: Seq<(Seq<char>, Seq<char>)>,
    pub body: Seq<u8>,
}

impl View for Reply {
    type V = ReplyView;

    open spec fn view(&self) -> ReplyView {
        ReplyView {
            status: self.status,
            headers: pair_texts(self.headers@),
            body: self.body@,
        }
    }
}

/// A failure of the recorder itself, which the client reads as a bad gateway and
/// so as worth retrying.
pub open spec fn gateway(message: Seq<char>) -> ReplyView {
    ReplyView {
        status: 502,
        headers: seq![("content-type"@, "application/json"@)],
        body: vstd::utf8::encode_utf8(gateway_body(message)),
    }
}

fn bytes_of(text: &str) -> (r: Vec<u8>)
    ensures
        r@ == vstd::utf8::encode_utf8(text@),
{
    let bytes = text.as_bytes();
    let mut r: Vec<u8> = Vec::new();
    for i in 0..bytes.len()
        invariant
            r@ == bytes@.take(i as int),
    {
        r.push(bytes[i]);
    }
    assert(bytes@.take(bytes@.len() as int) =~= bytes@);
    r
}

/// The head of a reply as it is written.
pub open spec fn head_text(reply: ReplyView) -> Seq<char> {
    "HTTP/1.1 "@ + decimal_text(reply.status as nat) + " X\r\nContent-Length: "@ + decimal_text(
        reply.body.len(),
    ) + "\r\nConnection: close\r\n"@ + header_lines(reply.headers) + "\r\n"@
}

pub open spec fn header_lines(headers: Seq<(Seq<char>, Seq<char>)>) -> Seq<char>
    decreases headers.len(),
{
    if headers.len() == 0 {
        Seq::empty()
    } else {
        header_lines(headers.drop_last()) + headers.last().0 + ": "@ + headers.last().1 + "\r\n"@
    }
}

impl Reply {
    /// A failure of the recorder itself.
    pub fn gateway(message: String) -> (r: Self)
        ensures
            r@ == gateway(message@),
    {
        let mut members: Vec<(String, Json)> = Vec::new();
        members.push(("error".to_owned(), Json::Text(message)));
        proof {
            crate::json::member_views_are(members@);
            assert(crate::json::member_views(members@) =~= seq![
                ("error"@, JsonView::Text(message@)),
            ]);
        }
        let text = render(&Json::Object(members));
        let mut headers: Vec<(String, String)> = Vec::new();
        headers.push(("content-type".to_owned(), "application/json".to_owned()));
        assert(pair_texts(headers@) =~= seq![("content-type"@, "application/json"@)]);
        Reply { status: 502, headers, body: bytes_of(text.as_str()) }
    }

    /// The head of the reply as it is written.
    pub fn head(&self) -> (r: String)
        ensures
            r@ == head_text(self@),
    {
        let mut head = "HTTP/1.1 ".to_owned();
        head.append(decimal(self.status as u64).as_str());
        head.append(" X\r\nContent-Length: ");
        head.append(decimal(self.body.len() as u64).as_str());
        head.append("\r\nConnection: close\r\n");
        let ghost start = head@;
        let ghost all = pair_texts(self.headers@);
        assert(head@ + header_lines(all.take(0)) =~= head@);
        for i in 0..self.headers.len()
            invariant
                all == pair_texts(self.headers@),
                head@ == start + header_lines(all.take(i as int)),
        {
            assert(all.take(i + 1).drop_last() =~= all.take(i as int));
            head.append(self.headers[i].0.as_str());
            head.append(": ");
            head.append(self.headers[i].1.as_str());
            head.append("\r\n");
            assert(head@ =~= start + header_lines(all.take(i + 1)));
        }
        assert(all.take(all.len() as int) =~= all);
        head.append("\r\n");
        head
    }
}

impl Recorder {
    /// A recorder at a port of this machine, in front of an API.
    pub fn start(port: u16, upstream: &str, key: Option<String>) -> (r: Self)
        ensures
            r@ == (RecorderView {
                base_url: "http://127.0.0.1:"@ + decimal_text(port as nat),
                upstream: without_end_slashes(upstream@),
                key: maybe_text(key),
                facts: Seq::empty(),
                bodies: Map::empty(),
            }),
    {
        let digits = decimal(port as u64);
        let r = Recorder {
            base_url: concat("http://127.0.0.1:", digits.as_str()),
            upstream: trim_end_slashes(upstream),
            key,
            facts: Vec::new(),
            bodies: StringHashMap::new(),
        };
        assert(fact_views(r.facts@) =~= Seq::empty());
        assert(body_texts(r.bodies@) =~= Map::empty());
        r
    }

    /// What is remembered of the requests.
    pub fn facts(&self) -> (r: &Vec<Fact>)
        ensures
            fact_views(r@) == self@.facts,
    {
        &self.facts
    }

    /// Whether the key reached the wire on any request.
    pub fn carried_key(&self) -> (r: bool)
        ensures
            r == exists|i: int|
                0 <= i < self@.facts.len() && (#[trigger] self@.facts[i]).carried_key,
    {
        let ghost all = fact_views(self.facts@);
        for i in 0..self.facts.len()
            invariant
                all == fact_views(self.facts@),
                all == self@.facts,
                forall|j: int| 0 <= j < i ==> !(#[trigger] all[j]).carried_key,
        {
            assert(all[i as int].carried_key == self.facts@[i as int].carried_key);
            if self.facts[i].carried_key {
                assert(self@.facts[i as int].carried_key);
                return true;
            }
        }
        false
    }

    /// The text of a JSON answer that was captured, by the path it was served for.
    /// One that does not read as JSON after all is none.
    pub fn json_body(&self, path: &str) -> (r: Option<String>)
        ensures
            maybe_text(r) == (if self@.bodies.contains_key(path@) && is_json_text(
                self@.bodies[path@],
            ) {
                Some(self@.bodies[path@])
            } else {
                None
            }),
    {
        match self.bodies.get(path) {
            Some(body) => if is_json(body.as_str()) {
                Some(body.clone())
            } else {
                None
            },
            None => None,
        }
    }

    /// Where a request goes.
    pub fn target(&self, target: &str) -> (r: String)
        ensures
            r@ == self@.target(target@),
            forall|url: Seq<char>|
                target@ == VIA@ + hex_of(#[trigger] vstd::utf8::encode_utf8(url)) ==> r@ == url,
    {
        match strip_prefix(target, VIA) {
            Some(encoded) => {
                let url = from_hex(encoded.as_str());
                proof {
                    assert forall|text: Seq<char>|
                        target@ == VIA@ + hex_of(#[trigger] vstd::utf8::encode_utf8(text)) implies url@
                        == text by {
                        assert(encoded@ =~= hex_of(vstd::utf8::encode_utf8(text)));
                    }
                }
                url
            },
            None => {
                proof {
                    assert forall|text: Seq<char>|
                        target@ == VIA@ + hex_of(
                            #[trigger] vstd::utf8::encode_utf8(text),
                        ) implies self@.upstream + target@ == text by {
                        assert(target@.subrange(0, VIA@.len() as int) =~= VIA@);
                        assert(occurs_at(target@, VIA@, 0));
                    }
                }
                concat(self.upstream.as_str(), target)
            },
        }
    }

    fn carries(&self, url: &str, headers: &Vec<(String, String)>) -> (r: bool)
        ensures
            r == self@.carries(url@, pair_texts(headers@)),
    {
        match &self.key {
            None => false,
            Some(key) => {
                if contains(url, key.as_str()) {
                    return true;
                }
                let ghost all = pair_texts(headers@);
                for i in 0..headers.len()
                    invariant
                        all == pair_texts(headers@),
                        self@.key == Some(key@),
                        first_occurrence(url@, key@) is None,
                        forall|j: int|
                            0 <= j < i ==> first_occurrence((#[trigger] all[j]).1, key@) is None,
                {
                    assert(all[i as int].1 == headers@[i as int].1@);
                    if contains(headers[i].1.as_str(), key.as_str()) {
                        return true;
                    }
                }
                false
            },
        }
    }

    /// Remembers that a request was made, and whether it carried the key.
    pub fn note(&mut self, request: &Request, url: &str)
        ensures
            final(self)@ == old(self)@.noted(url@, pair_texts(request.headers@)),
    {
        let carried_key = self.carries(url, &request.headers);
        let (origin, path) = split(url);
        let ghost before = self.facts@;
        let fact = Fact { origin, path, carried_key };
        self.facts.push(fact);
        assert(fact_views(self.facts@) =~= fact_views(before).push(fact@));
    }

    /// Remembers a JSON answer that is not too large.
    pub fn capture(&mut self, url: &str, headers: &Vec<(String, String)>, body: &Vec<u8>)
        ensures
            final(self)@ == old(self)@.captured(url@, pair_texts(headers@), body@),
    {
        if !declares_json(headers) || body.len() > MAX_CAPTURED_BODY {
            return;
        }
        match read_utf8(body.as_slice()) {
            Some(text) => {
                let (_, path) = split(url);
                let ghost before = self.bodies@;
                self.bodies.insert(path, text);
                assert(body_texts(self.bodies@) =~= body_texts(before).insert(path@, text@));
            },
            None => {},
        }
    }

    /// The headers of an answer that are handed on.
    pub fn relayed(
        &self,
        content_type: Option<String>,
        retry_after: Option<String>,
        location: Option<String>,
    ) -> (r: Vec<(String, String)>)
        ensures
            pair_texts(r@) == self@.relayed(
                maybe_text(content_type),
                maybe_text(retry_after),
                maybe_text(location),
            ),
    {
        let mut headers: Vec<(String, String)> = Vec::new();
        assert(pair_texts(headers@) =~= Seq::empty());
        push_header(&mut headers, "content-type", content_type);
        push_header(&mut headers, "retry-after", retry_after);
        let rewritten = match &location {
            Some(location) => {
                let mut link = concat(self.base_url.as_str(), VIA);
                link.append(to_hex(location.as_str()).as_str());
                Some(link)
            },
            None => None,
        };
        push_header(&mut headers, "location", rewritten);
        assert(pair_texts(headers@) =~= self@.relayed(
            maybe_text(content_type),
            maybe_text(retry_after),
            maybe_text(location),
        ));
        headers
    }
}

fn declares_json(headers: &Vec<(String, String)>) -> (r: bool)
    ensures
        r == serves_json(pair_texts(headers@)),
{
    let ghost all = pair_texts(headers@);
    for i in 0..headers.len()
        invariant
            all == pair_texts(headers@),
            forall|j: int|
                0 <= j < i ==> !((#[trigger] all[j]).0 == "content-type"@ && occurs_at(
                    all[j].1,
                    "application/json"@,
                    0,
                )),
    {
        assert(all[i as int] == (headers@[i as int].0@, headers@[i as int].1@));
        if same(headers[i].0.as_str(), "content-type") && starts_with(
            headers[i].1.as_str(),
            "application/json",
        ) {
            return true;
        }
    }
    false
}

/// The path a client asks the recorder for when it follows a redirect that was
/// pointed back at it leads to where the redirect led.
pub proof fn law_a_redirect_leads_where_it_did(recorder: RecorderView, location: Seq<char>)
    ensures
        recorder.relayed(None, None, Some(location)) == seq![
            (
                "location"@,
                recorder.base_url + (VIA@ + hex_of(vstd::utf8::encode_utf8(location))),
            ),
        ],
        unhexed(
            vstd::utf8::encode_utf8(
                (VIA@ + hex_of(vstd::utf8::encode_utf8(location))).skip(VIA@.len() as int),
            ),
        ) == vstd::utf8::encode_utf8(location),
{
    let bytes = vstd::utf8::encode_utf8(location);
    assert((VIA@ + hex_of(bytes)).skip(VIA@.len() as int) =~= hex_of(bytes));
    hex_is_ascii(bytes);
    encoded_ascii(hex_of(bytes));
    law_hex_reads_back(bytes);
    assert(recorder.base_url + VIA@ + hex_of(bytes) =~= recorder.base_url + (VIA@ + hex_of(bytes)));
    assert(recorder.relayed(None, None, Some(location)) =~= seq![
        ("location"@, recorder.base_url + (VIA@ + hex_of(bytes))),
    ]);
}

/// Where the forwarding of a request is.
#[derive(Clone, Copy, Debug, PartialEq, Eq, Structural)]
pub enum ForwardPhase {
    Sending,
    Reading,
    Done,
}

/// One request on its way.
#[derive(Debug)]
pub struct Forward {
    pub url: String,
    pub phase: ForwardPhase,
    pub status: u16,
    pub headers: Vec<(String, String)>,
    pub body: Vec<u8>,
}

/// What happened to a request on its way.
#[derive(Debug)]
pub enum ForwardEvent {
    Answered {
        status: u16,
        content_type: Option<String>,
        retry_after: Option<String>,
        location: Option<String>,
    },
    /// These bytes of the answer were read.
    Chunk(Vec<u8>),
    /// There is nothing more to read.
    Ended,
    /// What was under way failed, and why.
    Failed(String),
}

/// What a request on its way needs next.
#[derive(Debug)]
pub enum ForwardAction {
    /// Read more of the answer.
    Read,
    /// Hand this back.
    Reply(Reply),
}

pub struct ForwardView {
    pub url: Seq<char>,
    pub phase: ForwardPhase,
    pub status: u16,
    pub headers: Seq<(Seq<char>, Seq<char>)>,
    pub body: Seq<u8>,
}

pub enum ForwardEventView {
    Answered {
        status: u16,
        content_type: Option<Seq<char>>,
        retry_after: Option<Seq<char>>,
        location: Option<Seq<char>>,
    },
    Chunk(Seq<u8>),
    Ended,
    Failed(Seq<char>),
}

pub enum ForwardActionView {
    Read,
    Reply(ReplyView),
}

impl View for Forward {
    type V = ForwardView;

    open spec fn view(&self) -> ForwardView {
        ForwardView {
            url: self.url@,
            phase: self.phase,
            status: self.status,
            headers: pair_texts(self.headers@),
            body: self.body@,
        }
    }
}

impl View for ForwardEvent {
    type V = ForwardEventView;

    open spec fn view(&self) -> ForwardEventView {
        match self {
            ForwardEvent::Answered { status, content_type, retry_after, location } => {
                ForwardEventView::Answered {
                    status: *status,
                    content_type: maybe_text(*content_type),
                    retry_after: maybe_text(*retry_after),
                    location: maybe_text(*location),
                }
            },
            ForwardEvent::Chunk(bytes) => ForwardEventView::Chunk(bytes@),
            ForwardEvent::Ended => ForwardEventView::Ended,
            ForwardEvent::Failed(why) => ForwardEventView::Failed(why@),
        }
    }
}

impl View for ForwardAction {
    type V = ForwardActionView;

    open spec fn view(&self) -> ForwardActionView {
        match self {
            ForwardAction::Read => ForwardActionView::Read,
            ForwardAction::Reply(reply) => ForwardActionView::Reply(reply@),
        }
    }
}

impl ForwardView {
    /// Whether an event is one the request is waiting for.
    pub open spec fn expects(self, event: ForwardEventView) -> bool {
        match self.phase {
            ForwardPhase::Sending => event is Answered || event is Failed,
            ForwardPhase::Reading => event is Chunk || event is Ended || event is Failed,
            ForwardPhase::Done => false,
        }
    }

    /// What an event does to a request on its way and to what the recorder
    /// remembers, and what is needed next.
    pub open spec fn next(self, recorder: RecorderView, event: ForwardEventView) -> (
        ForwardView,
        RecorderView,
        ForwardActionView,
    ) {
        let over = ForwardView { phase: ForwardPhase::Done, ..self };
        match event {
            ForwardEventView::Answered { status, content_type, retry_after, location } => (
                ForwardView {
                    phase: ForwardPhase::Reading,
                    status,
                    headers: recorder.relayed(content_type, retry_after, location),
                    ..self
                },
                recorder,
                ForwardActionView::Read,
            ),
            ForwardEventView::Chunk(bytes) => if self.body.len() + bytes.len() > MAX_BODY {
                (
                    over,
                    recorder,
                    ForwardActionView::Reply(
                        gateway(
                            self.url + " answered more than "@ + decimal_text(MAX_BODY as nat)
                                + " bytes"@,
                        ),
                    ),
                )
            } else {
                (
                    ForwardView { body: self.body + bytes, ..self },
                    recorder,
                    ForwardActionView::Read,
                )
            },
            ForwardEventView::Ended => (
                over,
                recorder.captured(self.url, self.headers, self.body),
                ForwardActionView::Reply(
                    ReplyView { status: self.status, headers: self.headers, body: self.body },
                ),
            ),
            ForwardEventView::Failed(why) => (
                over,
                recorder,
                ForwardActionView::Reply(
                    gateway(
                        if self.phase == ForwardPhase::Sending {
                            "forwarding to "@ + self.url + " failed: "@ + why
                        } else {
                            "reading "@ + self.url + " failed: "@ + why
                        },
                    ),
                ),
            ),
        }
    }
}

impl Recorder {
    /// Takes in what happened to a request on its way and says what is needed
    /// next.
    pub fn forward(&mut self, call: &mut Forward, event: ForwardEvent) -> (r: ForwardAction)
        requires
            old(call)@.expects(event@),
            old(call)@.body.len() <= MAX_BODY,
        ensures
            (final(call)@, final(self)@, r@) == old(call)@.next(old(self)@, event@),
            final(call)@.body.len() <= MAX_BODY,
    {
        match event {
            ForwardEvent::Answered { status, content_type, retry_after, location } => {
                call.status = status;
                call.headers = self.relayed(content_type, retry_after, location);
                call.phase = ForwardPhase::Reading;
                ForwardAction::Read
            },
            ForwardEvent::Chunk(bytes) => {
                if bytes.len() > MAX_BODY - call.body.len() {
                    call.phase = ForwardPhase::Done;
                    let mut message = concat(call.url.as_str(), " answered more than ");
                    message.append(decimal(MAX_BODY as u64).as_str());
                    message.append(" bytes");
                    return ForwardAction::Reply(Reply::gateway(message));
                }
                let ghost before = call.body@;
                for i in 0..bytes.len()
                    invariant
                        call.body@ == before + bytes@.take(i as int),
                        call.url == old(call).url,
                        call.phase == old(call).phase,
                        call.status == old(call).status,
                        call.headers == old(call).headers,
                {
                    call.body.push(bytes[i]);
                    assert(call.body@ =~= before + bytes@.take(i + 1));
                }
                assert(bytes@.take(bytes@.len() as int) =~= bytes@);
                ForwardAction::Read
            },
            ForwardEvent::Ended => {
                call.phase = ForwardPhase::Done;
                self.capture(call.url.as_str(), &call.headers, &call.body);
                ForwardAction::Reply(copy_reply(call))
            },
            ForwardEvent::Failed(why) => {
                let mut message = if call.phase == ForwardPhase::Sending {
                    concat("forwarding to ", call.url.as_str())
                } else {
                    concat("reading ", call.url.as_str())
                };
                message.append(" failed: ");
                message.append(why.as_str());
                call.phase = ForwardPhase::Done;
                ForwardAction::Reply(Reply::gateway(message))
            },
        }
    }
}

fn copy_reply(call: &Forward) -> (r: Reply)
    ensures
        r@ == (ReplyView { status: call@.status, headers: call@.headers, body: call@.body }),
{
    let mut headers: Vec<(String, String)> = Vec::new();
    let ghost all = pair_texts(call.headers@);
    for i in 0..call.headers.len()
        invariant
            all == pair_texts(call.headers@),
            pair_texts(headers@) =~= all.take(i as int),
    {
        let ghost before = headers@;
        headers.push((call.headers[i].0.clone(), call.headers[i].1.clone()));
        assert(pair_texts(headers@) =~= pair_texts(before).push(all[i as int]));
    }
    assert(all.take(all.len() as int) =~= all);
    let mut body: Vec<u8> = Vec::new();
    for i in 0..call.body.len()
        invariant
            body@ == call.body@.take(i as int),
    {
        body.push(call.body[i]);
    }
    assert(call.body@.take(call.body@.len() as int) =~= call.body@);
    Reply { status: call.status, headers, body }
}

impl Forward {
    /// Starts a request on its way to a URL.
    pub fn start(url: String) -> (r: Self)
        ensures
            r@ == (ForwardView {
                url: url@,
                phase: ForwardPhase::Sending,
                status: 0,
                headers: Seq::empty(),
                body: Seq::empty(),
            }),
    {
        let r = Forward {
            url,
            phase: ForwardPhase::Sending,
            status: 0,
            headers: Vec::new(),
            body: Vec::new(),
        };
        assert(pair_texts(r.headers@) =~= Seq::empty());
        r
    }
}

/// Where the reading of a request's head is.
#[derive(Clone, Copy, Debug, PartialEq, Eq, Structural)]
pub enum HeadState {
    /// More bytes belong to it.
    More,
    /// It is whole.
    Whole,
    /// It is longer than any request.
    TooLong,
}

/// Whether bytes end with the blank line that ends a head.
pub open spec fn ends_head(raw: Seq<u8>) -> bool {
    raw.len() >= 4 && raw[raw.len() - 4] == 13 && raw[raw.len() - 3] == 10 && raw[raw.len() - 2]
        == 13 && raw[raw.len() - 1] == 10
}

pub open spec fn head_state(raw: Seq<u8>) -> HeadState {
    if raw.len() > MAX_HEAD {
        HeadState::TooLong
    } else if ends_head(raw) {
        HeadState::Whole
    } else {
        HeadState::More
    }
}

/// Takes in the next byte of a head.
pub fn push_head(raw: &mut Vec<u8>, byte: u8) -> (r: HeadState)
    ensures
        final(raw)@ == old(raw)@.push(byte),
        r == head_state(final(raw)@),
{
    raw.push(byte);
    let size: usize = raw.len();
    if size > MAX_HEAD {
        HeadState::TooLong
    } else if size >= 4 && raw[size - 4] == 13 && raw[size - 3] == 10 && raw[size - 2] == 13
        && raw[size - 1] == 10 {
        HeadState::Whole
    } else {
        HeadState::More
    }
}

/// The headers that lines have: those with a colon, their names in lower case and
/// neither side with white space around it.
pub open spec fn header_pairs(all: Seq<Seq<char>>) -> Seq<(Seq<char>, Seq<char>)>
    decreases all.len(),
{
    if all.len() == 0 {
        Seq::empty()
    } else {
        let before = header_pairs(all.drop_last());
        match halves(all.last(), ":"@) {
            Some((name, value)) => before.push((lowercase_text(trimmed(name)), trimmed(value))),
            None => before,
        }
    }
}

/// Whether the name of every header is ASCII.
pub open spec fn ascii_names(all: Seq<Seq<char>>) -> bool
    decreases all.len(),
{
    all.len() == 0 || (ascii_names(all.drop_last()) && match halves(all.last(), ":"@) {
        Some((name, _)) => is_ascii_text(trimmed(name)),
        None => true,
    })
}

/// The headers of a head whose names are ASCII, each named in ASCII lower case.
pub open spec fn ascii_pairs(all: Seq<Seq<char>>) -> Seq<(Seq<char>, Seq<char>)>
    decreases all.len(),
{
    if all.len() == 0 {
        Seq::empty()
    } else {
        let before = ascii_pairs(all.drop_last());
        match halves(all.last(), ":"@) {
            Some((name, value)) => before.push(
                (trimmed(name).map_values(|c: char| ascii_lower(c)), trimmed(value)),
            ),
            None => before,
        }
    }
}

/// What the text of a head asks for, and with which headers. A head without a
/// target asks for nothing.
pub open spec fn head_request(text: Seq<char>) -> Option<
    (Seq<char>, Seq<(Seq<char>, Seq<char>)>),
> {
    let all = lines(text);
    if all.len() == 0 {
        None
    } else {
        match second_word(all[0]) {
            Some(target) => Some((target, header_pairs(all.skip(1)))),
            None => None,
        }
    }
}

/// Reads what the text of a head asks for.
pub fn read_head_text(text: &str) -> (r: Option<Request>)
    ensures
        match r {
            Some(request) => head_request(text@) == Some(
                (request.target@, pair_texts(request.headers@)),
            ),
            None => head_request(text@) is None,
        },
        r matches Some(request) ==> ascii_names(lines(text@).skip(1)) ==> pair_texts(
            request.headers@,
        ) == ascii_pairs(lines(text@).skip(1)),
{
    let all = split_lines(text);
    let ghost views = lines(text@);
    if all.len() == 0 {
        assert(views.len() == 0);
        return None;
    }
    assert(views[0] == all@[0]@);
    let target = match find_second_word(all[0].as_str()) {
        Some(target) => target,
        None => return None,
    };
    let mut headers: Vec<(String, String)> = Vec::new();
    let ghost rest = views.skip(1);
    assert(pair_texts(headers@) =~= header_pairs(rest.take(0)));
    for i in 1..all.len()
        invariant
            views == texts(all@),
            rest == views.skip(1),
            pair_texts(headers@) == header_pairs(rest.take(i - 1)),
            ascii_names(rest.take(i - 1)) ==> pair_texts(headers@) == ascii_pairs(rest.take(i - 1)),
    {
        assert(rest.take(i as int).drop_last() =~= rest.take(i - 1));
        assert(rest.take(i as int).last() == all@[i as int]@);
        match split_once(all[i].as_str(), ":") {
            Some((name, value)) => {
                let ghost before = headers@;
                let name = lowercase(trim(name.as_str()).as_str());
                let value = trim(value.as_str());
                headers.push((name, value));
                assert(pair_texts(headers@) =~= pair_texts(before).push((name@, value@)));
            },
            None => {},
        }
    }
    assert(rest.take(rest.len() as int) =~= rest);
    Some(Request { target, headers })
}

/// Reads what a head asks for.
pub fn read_head(raw: &Vec<u8>) -> (r: Option<Request>)
    ensures
        match r {
            Some(request) => head_request(lossy_text(raw@)) == Some(
                (request.target@, pair_texts(request.headers@)),
            ),
            None => head_request(lossy_text(raw@)) is None,
        },
        utf8_text(raw@) matches Some(text) ==> match r {
            Some(request) => {
                &&& head_request(text) == Some((request.target@, pair_texts(request.headers@)))
                &&& ascii_names(lines(text).skip(1)) ==> pair_texts(request.headers@)
                    == ascii_pairs(lines(text).skip(1))
            },
            None => head_request(text) is None,
        },
{
    let text = read_lossy(raw.as_slice());
    read_head_text(text.as_str())
}

/// A request that follows no redirect goes to the API, under the path it asked for. One
/// under the recorder's own prefix goes to what its hexadecimal digits spell.
pub proof fn law_where_a_request_goes(recorder: RecorderView, target: Seq<char>, digits: Seq<char>)
    ensures
        VIA@ == "/__via/"@,
        target.len() < "/__via/"@.len() || target.take("/__via/"@.len() as int) != "/__via/"@
            ==> recorder.target(target) == recorder.upstream + target,
        recorder.target("/__via/"@ + digits) == lossy_text(
            unhexed(vstd::utf8::encode_utf8(digits)),
        ),
{
    reveal_strlit("/__via/");
    let via = "/__via/"@;
    if target.len() >= via.len() {
        assert(target.subrange(0, via.len() as int) =~= target.take(via.len() as int));
    }
    assert((via + digits).subrange(0, via.len() as int) =~= via);
    assert((via + digits).skip(via.len() as int) =~= digits);
}

/// A request carries the key exactly when the key stands somewhere in its URL or in the
/// value of one of its headers. Without a key none carries it.
pub proof fn law_when_a_request_carries_the_key(
    recorder: RecorderView,
    key: Seq<char>,
    before: Seq<char>,
    after: Seq<char>,
    url: Seq<char>,
    name: Seq<char>,
    headers: Seq<(Seq<char>, Seq<char>)>,
    i: int,
)
    requires
        recorder.key == Some(key),
    ensures
        recorder.carries(before + key + after, headers),
        0 <= i < headers.len() && headers[i].1 == before + key + after ==> recorder.carries(
            url,
            headers,
        ),
        recorder.carries(url, headers) ==> (exists|at: int| #[trigger] occurs_at(url, key, at)) || (
        exists|k: int, at: int|
            0 <= k < headers.len() && #[trigger] occurs_at(headers[k].1, key, at)),
        !(RecorderView { key: None, ..recorder }).carries(url, headers),
{
    law_a_text_stands_where_it_is_a_part(after, before, key);
    if 0 <= i < headers.len() && headers[i].1 == before + key + after {
        assert(first_occurrence(headers[i].1, key) is Some);
    }
    if recorder.carries(url, headers) {
        first_occurrence_is(url, key);
        if first_occurrence(url, key) is None {
            let k = choose|k: int|
                0 <= k < headers.len() && first_occurrence((#[trigger] headers[k]).1, key) is Some;
            first_occurrence_is(headers[k].1, key);
            assert(occurs_at(
                headers[k].1,
                key,
                first_occurrence(headers[k].1, key)->0,
            ));
        } else {
            assert(occurs_at(url, key, first_occurrence(url, key)->0));
        }
    }
}

/// One fact is remembered of a request: where it went, without its query, and whether it
/// carried the key. Nothing else about the recorder changes.
pub proof fn law_one_fact_is_remembered_of_a_request(
    recorder: RecorderView,
    url: Seq<char>,
    headers: Seq<(Seq<char>, Seq<char>)>,
)
    ensures
        ({
            let after = recorder.noted(url, headers);
            &&& after.facts.len() == recorder.facts.len() + 1
            &&& after.facts.drop_last() == recorder.facts
            &&& after.facts.last().origin == origin_of(url)
            &&& after.facts.last().path == path_of(url)
            &&& after.facts.last().carried_key == recorder.carries(url, headers)
            &&& after.base_url == recorder.base_url && after.upstream == recorder.upstream
                && after.key == recorder.key && after.bodies == recorder.bodies
        }),
{
    assert(recorder.noted(url, headers).facts.drop_last() =~= recorder.facts);
}

/// A body is remembered under the path it was served for exactly when its headers say
/// that it is JSON, it is UTF-8, and it is at most a mebibyte long. Nothing else about the
/// recorder changes.
pub proof fn law_what_is_remembered_of_an_answer(
    recorder: RecorderView,
    url: Seq<char>,
    headers: Seq<(Seq<char>, Seq<char>)>,
    body: Seq<u8>,
    kind: Seq<char>,
    more: Seq<char>,
)
    ensures
        ({
            let after = recorder.captured(url, headers, body);
            &&& serves_json(headers) && body.len() <= 1024 * 1024 && vstd::utf8::valid_utf8(body)
                ==> after.bodies == recorder.bodies.insert(
                path_of(url),
                vstd::utf8::decode_utf8(body),
            )
            &&& !serves_json(headers) || body.len() > 1024 * 1024 || !vstd::utf8::valid_utf8(body)
                ==> after.bodies == recorder.bodies
            &&& after.base_url == recorder.base_url && after.upstream == recorder.upstream
                && after.key == recorder.key && after.facts == recorder.facts
        }),
        serves_json(seq![("content-type"@, "application/json"@ + more)]),
        kind != "content-type"@ ==> !serves_json(seq![(kind, "application/json"@ + more)]),
        serves_json(headers) ==> exists|i: int|
            0 <= i < headers.len() && (#[trigger] headers[i]).0 == "content-type"@
                && headers[i].1.len() >= "application/json"@.len() && headers[i].1.take(
                "application/json"@.len() as int,
            ) == "application/json"@,
        !serves_json(Seq::empty()),
{
    let json = "application/json"@;
    let value = json + more;
    assert(value.subrange(0, json.len() as int) =~= json);
    let one = seq![("content-type"@, value)];
    assert(one[0].0 == "content-type"@ && occurs_at(one[0].1, json, 0));
    if serves_json(headers) {
        let i = choose|i: int|
            0 <= i < headers.len() && (#[trigger] headers[i]).0 == "content-type"@ && occurs_at(
                headers[i].1,
                json,
                0,
            );
        assert(headers[i].1.subrange(0, json.len() as int) =~= headers[i].1.take(
            json.len() as int,
        ));
    }
}

/// The headers of an answer that are handed on are its type and its wait as they are, and
/// its location pointed back at the recorder; each where it has one.
pub proof fn law_which_headers_are_handed_on(
    recorder: RecorderView,
    kind: Seq<char>,
    wait: Seq<char>,
    location: Seq<char>,
)
    ensures
        recorder.relayed(None, None, None).len() == 0,
        recorder.relayed(Some(kind), None, None) == seq![("content-type"@, kind)],
        recorder.relayed(None, Some(wait), None) == seq![("retry-after"@, wait)],
        recorder.relayed(Some(kind), Some(wait), None) == seq![
            ("content-type"@, kind),
            ("retry-after"@, wait),
        ],
        recorder.relayed(Some(kind), Some(wait), Some(location)) == seq![
            ("content-type"@, kind),
            ("retry-after"@, wait),
            (
                "location"@,
                recorder.base_url + "/__via/"@ + hex_of(vstd::utf8::encode_utf8(location)),
            ),
        ],
{
    assert(recorder.relayed(None, None, None) =~= Seq::empty());
    assert(recorder.relayed(Some(kind), None, None) =~= seq![("content-type"@, kind)]);
    assert(recorder.relayed(None, Some(wait), None) =~= seq![("retry-after"@, wait)]);
    assert(recorder.relayed(Some(kind), Some(wait), None) =~= seq![
        ("content-type"@, kind),
        ("retry-after"@, wait),
    ]);
    assert(recorder.relayed(Some(kind), Some(wait), Some(location)) =~= seq![
        ("content-type"@, kind),
        ("retry-after"@, wait),
        (
            "location"@,
            recorder.base_url + "/__via/"@ + hex_of(vstd::utf8::encode_utf8(location)),
        ),
    ]);
}

/// Every header goes on with a request, in order, but for the five that belong to one
/// hop.
pub proof fn law_which_headers_go_on(
    headers: Seq<(Seq<char>, Seq<char>)>,
    name: Seq<char>,
    value: Seq<char>,
)
    ensures
        outbound(Seq::empty()) == Seq::<(Seq<char>, Seq<char>)>::empty(),
        name == "host"@ || name == "connection"@ || name == "content-length"@ || name
            == "transfer-encoding"@ || name == "accept-encoding"@ ==> outbound(
            headers.push((name, value)),
        ) == outbound(headers),
        name != "host"@ && name != "connection"@ && name != "content-length"@ && name
            != "transfer-encoding"@ && name != "accept-encoding"@ ==> outbound(
            headers.push((name, value)),
        ) == outbound(headers).push((name, value)),
{
    assert(headers.push((name, value)).drop_last() =~= headers);
}

/// A failure of the recorder itself is a bad gateway, whose body is a JSON object that
/// says what failed.
pub proof fn law_a_recorder_fails_as_a_bad_gateway(message: Seq<char>)
    ensures
        gateway(message).status == 502,
        gateway(message).headers == seq![("content-type"@, "application/json"@)],
        gateway(message).body == vstd::utf8::encode_utf8(
            "{"@ + crate::json::quoted("error"@) + ":"@ + crate::json::quoted(message) + "}"@,
        ),
{
    crate::json::law_a_value_is_written_without_white_space(
        "error"@,
        None,
        JsonView::Text(message),
        Seq::empty(),
        Seq::empty(),
    );
    crate::json::law_a_value_is_written_without_white_space(
        message,
        None,
        JsonView::Null,
        Seq::empty(),
        Seq::empty(),
    );
}

/// The head of a reply has its status, the length of its body and each of its headers on
/// a line of its own, in order, and ends with a blank line.
pub proof fn law_how_a_head_is_written(
    reply: ReplyView,
    headers: Seq<(Seq<char>, Seq<char>)>,
    name: Seq<char>,
    value: Seq<char>,
)
    ensures
        head_text(reply) == "HTTP/1.1 "@ + decimal_text(reply.status as nat)
            + " X\r\nContent-Length: "@ + decimal_text(reply.body.len())
            + "\r\nConnection: close\r\n"@ + header_lines(reply.headers) + "\r\n"@,
        header_lines(Seq::empty()) == Seq::<char>::empty(),
        header_lines(headers.push((name, value))) == header_lines(headers) + name + ": "@ + value
            + "\r\n"@,
{
    assert(headers.push((name, value)).drop_last() =~= headers);
}

/// What comes of a request on its way: what was read is handed back as it was answered
/// and remembered; too much of it, more than thirty-two mebibytes, and any failure are a
/// bad gateway that names the URL, and nothing is remembered of them.
pub proof fn law_what_comes_of_a_request(
    call: ForwardView,
    recorder: RecorderView,
    status: u16,
    kind: Option<Seq<char>>,
    wait: Option<Seq<char>>,
    location: Option<Seq<char>>,
    bytes: Seq<u8>,
    why: Seq<char>,
)
    ensures
        ({
            let answered = call.next(
                recorder,
                ForwardEventView::Answered {
                    status,
                    content_type: kind,
                    retry_after: wait,
                    location,
                },
            );
            let chunk = call.next(recorder, ForwardEventView::Chunk(bytes));
            let ended = call.next(recorder, ForwardEventView::Ended);
            let failed = call.next(recorder, ForwardEventView::Failed(why));
            &&& answered.0.status == status && answered.0.headers == recorder.relayed(
                kind,
                wait,
                location,
            ) && answered.0.body == call.body && answered.0.url == call.url && answered.0.phase
                == ForwardPhase::Reading && answered.1 == recorder && answered.2 is Read
            &&& call.body.len() + bytes.len() <= 32 * 1024 * 1024 ==> chunk.0 == (ForwardView {
                body: call.body + bytes,
                ..call
            }) && chunk.1 == recorder && chunk.2 is Read
            &&& call.body.len() + bytes.len() > 32 * 1024 * 1024 ==> chunk.0.phase
                == ForwardPhase::Done && chunk.1 == recorder && chunk.2 == ForwardActionView::Reply(
                gateway(call.url + " answered more than "@ + decimal_text(33554432) + " bytes"@),
            )
            &&& ended.0.phase == ForwardPhase::Done && ended.1 == recorder.captured(
                call.url,
                call.headers,
                call.body,
            ) && ended.2 == ForwardActionView::Reply(
                ReplyView { status: call.status, headers: call.headers, body: call.body },
            )
            &&& failed.0.phase == ForwardPhase::Done && failed.1 == recorder
            &&& call.phase == ForwardPhase::Sending ==> failed.2 == ForwardActionView::Reply(
                gateway("forwarding to "@ + call.url + " failed: "@ + why),
            )
            &&& call.phase == ForwardPhase::Reading ==> failed.2 == ForwardActionView::Reply(
                gateway("reading "@ + call.url + " failed: "@ + why),
            )
        }),
{
}

/// A head is whole once it ends with a blank line, and too long past sixty-four
/// kibibytes.
pub proof fn law_when_a_head_is_whole(raw: Seq<u8>)
    ensures
        raw.len() + 4 <= 64 * 1024 ==> head_state(raw + seq![13u8, 10u8, 13u8, 10u8])
            == HeadState::Whole,
        head_state(raw) == HeadState::Whole ==> raw.len() >= 4 && raw.skip(raw.len() - 4) == seq![
            13u8,
            10u8,
            13u8,
            10u8,
        ],
        (head_state(raw) == HeadState::TooLong) == (raw.len() > 64 * 1024),
{
    if head_state(raw) == HeadState::Whole {
        assert(raw.skip(raw.len() - 4) =~= seq![13u8, 10u8, 13u8, 10u8]);
    }
}

/// A head asks for the second word of its first line, with a header for each further line
/// that has a colon: what stands before the first colon in lower case, and what stands
/// behind it, neither with space around it.
pub proof fn law_what_a_head_asks_for(
    text: Seq<char>,
    all: Seq<Seq<char>>,
    line: Seq<char>,
    name: Seq<char>,
    value: Seq<char>,
)
    requires
        !name.contains(':'),
    ensures
        lines(text).len() == 0 ==> head_request(text) is None,
        lines(text).len() > 0 ==> (match second_word(lines(text)[0]) {
            Some(target) => head_request(text) == Some((target, header_pairs(lines(text).skip(1)))),
            None => head_request(text) is None,
        }),
        header_pairs(Seq::empty()) == Seq::<(Seq<char>, Seq<char>)>::empty(),
        header_pairs(all.push(name + ":"@ + value)) == header_pairs(all).push(
            (lowercase_text(trimmed(name)), trimmed(value)),
        ),
        !line.contains(':') ==> header_pairs(all.push(line)) == header_pairs(all),
        is_ascii_text(trimmed(name)) && ascii_names(all) ==> ascii_names(
            all.push(name + ":"@ + value),
        ) && ascii_pairs(all.push(name + ":"@ + value)) == ascii_pairs(all).push(
            (trimmed(name).map_values(|c: char| ascii_lower(c)), trimmed(value)),
        ),
{
    reveal_strlit(":");
    assert(":"@[0] == ':');
    halves_are(name, ":"@, value);
    assert(all.push(name + ":"@ + value).drop_last() =~= all);
    assert(all.push(line).drop_last() =~= all);
    if !line.contains(':') {
        halves_are(line, ":"@, Seq::empty());
    }
}

/// The scheme of a URL without one is plain HTTP, and a URL without a path has the root.
pub proof fn law_a_url_without_scheme_or_path(host: Seq<char>, path: Seq<char>)
    requires
        !host.contains('?'),
        !host.contains(':'),
        !host.contains('/'),
        !path.contains('?'),
        !path.contains(':'),
    ensures
        origin_of(host + "/"@ + path) == "http://"@ + host,
        path_of(host + "/"@ + path) == "/"@ + path,
        origin_of(host) == "http://"@ + host,
        path_of(host) == "/"@,
{
    reveal_strlit("?");
    reveal_strlit("/");
    reveal_strlit("://");
    reveal_strlit("http");
    reveal_strlit("http://");
    let url = host + "/"@ + path;
    assert forall|k: int| 0 <= k < url.len() implies #[trigger] url[k] != '?' && url[k] != ':' by {
        if k < host.len() {
            assert(host.contains(host[k]));
        } else if k > host.len() {
            assert(url[k] == path[k - host.len() - 1]);
            assert(path.contains(path[k - host.len() - 1]));
        }
    }
    assert(!url.contains('?') && !url.contains(':'));
    assert("?"@[0] == '?' && "://"@[0] == ':' && "/"@[0] == '/');
    halves_are(url, "?"@, Seq::empty());
    halves_are(url, "://"@, Seq::empty());
    halves_are(host, "?"@, Seq::empty());
    halves_are(host, "://"@, Seq::empty());
    halves_are(host, "/"@, path);
    assert("http"@ + "://"@ =~= "http://"@);
}

/// What is remembered, a reply, a request on its way and what happens to it read as they
/// are.
pub proof fn law_a_recorder_reads_as_it_is(
    fact: Fact,
    reply: Reply,
    call: Forward,
    recorder: Recorder,
)
    ensures
        fact@.origin == fact.origin@ && fact@.path == fact.path@ && fact@.carried_key
            == fact.carried_key,
        reply@.status == reply.status && reply@.body == reply.body@ && reply@.headers
            == pair_texts(reply.headers@),
        call@.url == call.url@ && call@.phase == call.phase && call@.status == call.status
            && call@.body == call.body@ && call@.headers == pair_texts(call.headers@),
        recorder@.base_url == recorder.base_url@ && recorder@.upstream == recorder.upstream@,
        recorder.key is None ==> recorder@.key is None,
        recorder.key matches Some(key) ==> recorder@.key == Some(key@),
        recorder@.facts.len() == recorder.facts@.len(),
        forall|i: int|
            0 <= i < recorder.facts@.len() ==> #[trigger] recorder@.facts[i]
                == recorder.facts@[i]@,
{
}

/// A pair of hexadecimal digits, in either case, stands for the byte it spells; a plus sign
/// may take the place of the first, a digit may stand alone at the end, and a pair with
/// anything else in it is left out.
pub proof fn law_what_hexadecimal_digits_stand_for(
    first: u8,
    second: u8,
    digits: Seq<u8>,
    high: u8,
    low: u8,
)
    requires
        hex_value(first) == Some(high),
        hex_value(second) == Some(low),
    ensures
        48 <= first <= 57 || 65 <= first <= 70 || 97 <= first <= 102,
        48 <= first <= 57 ==> high == first - 48,
        65 <= first <= 70 ==> high == first - 65 + 10,
        97 <= first <= 102 ==> high == first - 97 + 10,
        unhexed(seq![first, second] + digits) == seq![(16 * high + low) as u8] + unhexed(digits),
        unhexed(seq![43u8, second] + digits) == seq![low] + unhexed(digits),
        unhexed(seq![first]) == seq![high],
        forall|b: u8|
            !(48 <= b <= 57 || 65 <= b <= 70 || 97 <= b <= 102) ==> (#[trigger] hex_value(b)) is None,
        forall|b: u8| (#[trigger] hex_value(b)) is None ==> unhexed(seq![first, b] + digits)
            == unhexed(digits),
        forall|b: u8| (#[trigger] hex_value(b)) is None && b != 43 ==> unhexed(
            seq![b, second] + digits,
        ) == unhexed(digits),
        forall|b: u8| 48 <= b <= 57 || 65 <= b <= 70 || 97 <= b <= 102 ==> (#[trigger] hex_value(b))
            is Some,
{
    assert((seq![first, second] + digits).skip(2) =~= digits);
    assert((seq![43u8, second] + digits).skip(2) =~= digits);
    assert(seq![high] + Seq::<u8>::empty() =~= seq![high]);
    assert forall|b: u8| (#[trigger] hex_value(b)) is None implies unhexed(seq![first, b] + digits)
        == unhexed(digits) by {
        assert((seq![first, b] + digits).skip(2) =~= digits);
    }
    assert forall|b: u8| (#[trigger] hex_value(b)) is None && b != 43 implies unhexed(
        seq![b, second] + digits,
    ) == unhexed(digits) by {
        assert((seq![b, second] + digits).skip(2) =~= digits);
    }
}

/// What a request on its way waits for where it is.
pub proof fn law_what_a_request_waits_for(call: ForwardView, event: ForwardEventView)
    ensures
        call.expects(event) == (match call.phase {
            ForwardPhase::Sending => event is Answered || event is Failed,
            ForwardPhase::Reading => event is Chunk || event is Ended || event is Failed,
            ForwardPhase::Done => false,
        }),
{
}

}
