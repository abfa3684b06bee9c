//! Text as the sequence of characters it is made of.

use vstd::prelude::*;

verus! {

/// `String::push` appends one character and leaves the rest as it was.
pub assume_specification[ String::push ](s: &mut String, c: char)
    ensures
        final(s)@ == old(s)@.push(c),
;

/// The characters of a string, in order.
pub fn chars_of(s: &str) -> (v: Vec<char>)
    ensures
        v@ == s@,
{
    let mut v: Vec<char> = Vec::new();
    for c in it: s.chars()
        invariant
            it.seq() == s@,
            v@ == s@.take(it.index() as int),
    {
        v.push(c);
    }
    assert(s@.take(s@.len() as int) == s@);
    v
}

/// The string these characters spell.
pub fn string_of(v: &Vec<char>) -> (s: String)
    ensures
        s@ == v@,
{
    let mut s = String::new();
    for i in 0..v.len()
        invariant
            s@ == v@.take(i as int),
    {
        s.push(v[i]);
    }
    assert(v@.take(v@.len() as int) == v@);
    s
}

/// Whether two strings are the same text.
pub fn same(a: &str, b: &str) -> (r: bool)
    ensures
        r == (a@ == b@),
{
    let x = a.as_bytes();
    let y = b.as_bytes();
    proof {
        vstd::utf8::encode_utf8_decode_utf8(a@);
        vstd::utf8::encode_utf8_decode_utf8(b@);
    }
    if x.len() != y.len() {
        return false;
    }
    for i in 0..x.len()
        invariant
            x@ == vstd::utf8::encode_utf8(a@),
            y@ == vstd::utf8::encode_utf8(b@),
            x@.len() == y@.len(),
            forall|j: int| 0 <= j < i ==> x@[j] == y@[j],
    {
        if x[i] != y[i] {
            return false;
        }
    }
    assert(x@ =~= y@);
    true
}

/// A text as its `Debug` form shows it.
pub uninterp spec fn debug_text(text: Seq<char>) -> Seq<char>;

/// The `Debug` form of a `str`, as the standard library formats it: the text
/// between quotes, escaped. Which characters are escaped, and how, is not stated.
#[verifier::external_body]
pub(crate) fn debug(text: &str) -> (r: String)
    ensures
        r@ == debug_text(text@),
{
    format!("{:?}", text)
}

/// The texts of a list of strings.
pub open spec fn texts(v: Seq<String>) -> Seq<Seq<char>> {
    v.map_values(|s: String| s@)
}

pub proof fn texts_push(v: Seq<String>, s: String)
    ensures
        texts(v.push(s)) == texts(v).push(s@),
{
    assert(texts(v.push(s)) =~= texts(v).push(s@));
}

/// The text of a string that may be absent.
pub open spec fn maybe_text(s: Option<String>) -> Option<Seq<char>> {
    match s {
        Some(t) => Some(t@),
        None => None,
    }
}

/// A copy of a string that may be absent.
pub fn copy_maybe(s: &Option<String>) -> (r: Option<String>)
    ensures
        maybe_text(r) == maybe_text(*s),
{
    match s {
        Some(t) => Some(t.clone()),
        None => None,
    }
}

/// A copy of a list of strings.
pub fn copy_all(v: &Vec<String>) -> (r: Vec<String>)
    ensures
        texts(r@) == texts(v@),
{
    let mut r: Vec<String> = Vec::new();
    for i in 0..v.len()
        invariant
            texts(r@) == texts(v@).take(i as int),
    {
        let copy = v[i].clone();
        proof {
            texts_push(r@, copy);
        }
        r.push(copy);
        assert(texts(v@).take(i + 1) =~= texts(v@).take(i as int).push(v@[i as int]@));
    }
    assert(texts(v@).take(v@.len() as int) =~= texts(v@));
    r
}

/// The digit that stands for a number below ten.
pub open spec fn digit(n: int) -> char {
    (48 + n) as char
}

/// The digit that stands for a number below sixteen.
pub open spec fn hex_digit(n: int) -> char {
    if n < 10 {
        digit(n)
    } else {
        (87 + n) as char
    }
}

/// A number in hexadecimal notation, without leading zeros.
pub open spec fn hex_text(n: nat) -> Seq<char>
    decreases n,
{
    if n < 16 {
        seq![hex_digit(n as int)]
    } else {
        hex_text(n / 16).push(hex_digit((n % 16) as int))
    }
}

/// A number in decimal notation.
pub open spec fn decimal_text(n: nat) -> Seq<char>
    decreases n,
{
    if n < 10 {
        seq![digit(n as int)]
    } else {
        decimal_text(n / 10).push(digit((n % 10) as int))
    }
}

/// Writes a number in decimal notation.
pub fn decimal(n: u64) -> (s: String)
    ensures
        s@ == decimal_text(n as nat),
    decreases n,
{
    let last: char = (48u8 + (n % 10) as u8) as char;
    let mut s = if n < 10 { String::new() } else { decimal(n / 10) };
    s.push(last);
    s
}

/// An integer in decimal notation, with a leading minus when it is negative.
pub open spec fn signed_text(n: int) -> Seq<char> {
    if n < 0 {
        seq!['-'] + decimal_text((-n) as nat)
    } else {
        decimal_text(n as nat)
    }
}

/// Writes an integer in decimal notation.
pub fn signed(n: i64) -> (s: String)
    ensures
        s@ == signed_text(n as int),
{
    if n < 0 {
        let mut s = String::new();
        s.push('-');
        let size: u64 = (-(n as i128)) as u64;
        let digits = decimal(size);
        s.append(digits.as_str());
        s
    } else {
        decimal(n as u64)
    }
}

/// Whether a character is one of the ten decimal digits.
pub open spec fn is_digit(c: char) -> bool {
    '0' <= c <= '9'
}

/// The number a run of decimal digits spells.
pub open spec fn decimal_value(s: Seq<char>) -> nat
    decreases s.len(),
{
    if s.len() == 0 {
        0
    } else {
        decimal_value(s.drop_last()) * 10 + (s.last() as nat - 48) as nat
    }
}

/// A text without the plus sign it may open with.
pub open spec fn unsigned_part(s: Seq<char>) -> Seq<char> {
    if s.len() > 0 && s[0] == '+' {
        s.skip(1)
    } else {
        s
    }
}

/// The number an optional plus sign and one or more decimal digits spell, when
/// it is small enough to be held.
pub open spec fn parsed_u64(s: Seq<char>) -> Option<u64> {
    let digits = unsigned_part(s);
    if digits.len() > 0 && (forall|i: int| 0 <= i < digits.len() ==> is_digit(#[trigger] digits[i]))
        && decimal_value(digits) <= u64::MAX {
        Some(decimal_value(digits) as u64)
    } else {
        None
    }
}

proof fn decimal_value_grows(s: Seq<char>, k: int)
    requires
        0 <= k <= s.len(),
    ensures
        decimal_value(s.take(k)) <= decimal_value(s),
    decreases s.len() - k,
{
    if k < s.len() {
        assert(s.take(k + 1).drop_last() =~= s.take(k));
        decimal_value_grows(s, k + 1);
    } else {
        assert(s.take(k) =~= s);
    }
}

/// Reads an unsigned number: an optional plus sign and one or more decimal
/// digits, and nothing else.
pub fn parse_u64(text: &str) -> (r: Option<u64>)
    ensures
        r == parsed_u64(text@),
{
    let all = chars_of(text);
    let start: usize = if all.len() > 0 && all[0] == '+' { 1 } else { 0 };
    let ghost digits = unsigned_part(text@);
    assert(digits =~= all@.skip(start as int));
    if all.len() == start {
        return None;
    }
    let mut value: u64 = 0;
    let mut i: usize = start;
    while i < all.len()
        invariant
            start <= i <= all.len(),
            start <= 1,
            digits == all@.skip(start as int),
            digits == unsigned_part(text@),
            digits.len() > 0,
            value == decimal_value(digits.take(i - start)),
            forall|j: int| 0 <= j < i - start ==> is_digit(#[trigger] digits[j]),
        decreases all.len() - i,
    {
        let c = all[i];
        assert(c == digits[i - start]);
        if c < '0' || c > '9' {
            return None;
        }
        assert(digits.take(i - start + 1).drop_last() =~= digits.take(i - start));
        proof {
            decimal_value_grows(digits, i - start + 1);
        }
        let d: u64 = (c as u32 - 48) as u64;
        if value > (u64::MAX - d) / 10 {
            return None;
        }
        value = value * 10 + d;
        i = i + 1;
    }
    assert(digits.take(digits.len() as int) =~= digits);
    Some(value)
}

/// Whether a character has the Unicode `White_Space` property.
pub open spec fn is_white_space(c: char) -> bool {
    ||| '\u{9}' <= c <= '\u{d}'
    ||| c == '\u{20}'
    ||| c == '\u{85}'
    ||| c == '\u{a0}'
    ||| c == '\u{1680}'
    ||| '\u{2000}' <= c <= '\u{200a}'
    ||| c == '\u{2028}'
    ||| c == '\u{2029}'
    ||| c == '\u{202f}'
    ||| c == '\u{205f}'
    ||| c == '\u{3000}'
}

pub(crate) fn white_space(c: char) -> (r: bool)
    ensures
        r == is_white_space(c),
{
    ('\u{9}' <= c && c <= '\u{d}') || c == '\u{20}' || c == '\u{85}' || c == '\u{a0}'
        || c == '\u{1680}' || ('\u{2000}' <= c && c <= '\u{200a}') || c == '\u{2028}'
        || c == '\u{2029}' || c == '\u{202f}' || c == '\u{205f}' || c == '\u{3000}'
}

/// A text without its leading white space.
pub open spec fn trimmed_start(s: Seq<char>) -> Seq<char>
    decreases s.len(),
{
    if s.len() > 0 && is_white_space(s[0]) {
        trimmed_start(s.skip(1))
    } else {
        s
    }
}

/// A text without its trailing white space.
pub open spec fn trimmed_end(s: Seq<char>) -> Seq<char>
    decreases s.len(),
{
    if s.len() > 0 && is_white_space(s.last()) {
        trimmed_end(s.drop_last())
    } else {
        s
    }
}

/// A text without the white space around it.
pub open spec fn trimmed(s: Seq<char>) -> Seq<char> {
    trimmed_end(trimmed_start(s))
}

/// The characters from one place up to another.
pub fn between(all: &Vec<char>, from: usize, to: usize) -> (s: String)
    requires
        from <= to <= all@.len(),
    ensures
        s@ == all@.subrange(from as int, to as int),
{
    let mut s = String::new();
    for i in from..to
        invariant
            from <= to <= all@.len(),
            s@ == all@.subrange(from as int, i as int),
    {
        s.push(all[i]);
        assert(all@.subrange(from as int, i + 1) =~= all@.subrange(from as int, i as int).push(
            all@[i as int],
        ));
    }
    s
}

/// Takes the white space off both ends of a text.
pub fn trim(text: &str) -> (r: String)
    ensures
        r@ == trimmed(text@),
{
    let all = chars_of(text);
    let mut start: usize = 0;
    assert(all@.skip(0) =~= all@);
    while start < all.len() && white_space(all[start])
        invariant
            0 <= start <= all.len(),
            trimmed_start(all@.skip(start as int)) == trimmed_start(all@),
        decreases all.len() - start,
    {
        assert(all@.skip(start as int).skip(1) =~= all@.skip(start + 1));
        start = start + 1;
    }
    let mut end: usize = all.len();
    assert(all@.subrange(start as int, end as int) =~= all@.skip(start as int));
    while end > start && white_space(all[end - 1])
        invariant
            start <= end <= all.len(),
            trimmed_end(all@.subrange(start as int, end as int)) == trimmed_end(
                all@.skip(start as int),
            ),
        decreases end,
    {
        assert(all@.subrange(start as int, end as int).drop_last() =~= all@.subrange(
            start as int,
            end - 1,
        ));
        end = end - 1;
    }
    between(&all, start, end)
}

/// A text without the slashes it ends with.
pub open spec fn without_end_slashes(s: Seq<char>) -> Seq<char>
    decreases s.len(),
{
    if s.len() > 0 && s.last() == '/' {
        without_end_slashes(s.drop_last())
    } else {
        s
    }
}

/// Takes the slashes off the end of a text.
pub fn trim_end_slashes(text: &str) -> (r: String)
    ensures
        r@ == without_end_slashes(text@),
{
    let all = chars_of(text);
    let mut end: usize = all.len();
    assert(all@.subrange(0, end as int) =~= all@);
    while end > 0 && all[end - 1] == '/'
        invariant
            0 <= end <= all.len(),
            without_end_slashes(all@.subrange(0, end as int)) == without_end_slashes(all@),
        decreases end,
    {
        assert(all@.subrange(0, end as int).drop_last() =~= all@.subrange(0, end - 1));
        end = end - 1;
    }
    between(&all, 0, end)
}

/// The pieces of a text between the separators: each separator opens a new
/// piece, and every other character joins the piece that is open.
pub open spec fn pieces(s: Seq<char>, separator: char) -> Seq<Seq<char>>
    decreases s.len(),
{
    if s.len() == 0 {
        seq![Seq::<char>::empty()]
    } else {
        let before = pieces(s.drop_last(), separator);
        if s.last() == separator {
            before.push(Seq::<char>::empty())
        } else {
            before.drop_last().push(before.last().push(s.last()))
        }
    }
}

pub proof fn pieces_not_empty(s: Seq<char>, separator: char)
    ensures
        pieces(s, separator).len() > 0,
    decreases s.len(),
{
    if s.len() > 0 {
        pieces_not_empty(s.drop_last(), separator);
    }
}

/// Cuts a text at every separator.
pub fn split(text: &str, separator: char) -> (r: Vec<String>)
    ensures
        texts(r@) == pieces(text@, separator),
{
    let all = chars_of(text);
    let mut done: Vec<String> = Vec::new();
    let mut open = String::new();
    assert(texts(done@).push(open@) =~= pieces(all@.take(0), separator));
    for i in 0..all.len()
        invariant
            texts(done@).push(open@) == pieces(all@.take(i as int), separator),
    {
        let c = all[i];
        assert(all@.take(i + 1).drop_last() =~= all@.take(i as int));
        let ghost before = texts(done@).push(open@);
        if c == separator {
            proof {
                texts_push(done@, open);
            }
            done.push(open);
            open = String::new();
            assert(texts(done@) == before);
        } else {
            open.push(c);
            assert(before.drop_last() =~= texts(done@));
        }
    }
    assert(all@.take(all@.len() as int) =~= all@);
    proof {
        texts_push(done@, open);
    }
    done.push(open);
    done
}

/// The lower-case form of an ASCII letter, and any other character as it is.
pub open spec fn ascii_lower(c: char) -> char {
    if 'A' <= c <= 'Z' {
        (c as u32 + 32) as char
    } else {
        c
    }
}

fn lower(c: char) -> (r: char)
    ensures
        r == ascii_lower(c),
{
    if 'A' <= c && c <= 'Z' {
        (c as u8 + 32) as char
    } else {
        c
    }
}

/// Whether two texts differ only in the case of their ASCII letters.
pub open spec fn same_but_case(a: Seq<char>, b: Seq<char>) -> bool {
    a.map_values(|c: char| ascii_lower(c)) == b.map_values(|c: char| ascii_lower(c))
}

/// Whether two texts are the same when the case of ASCII letters is ignored.
pub fn same_ignoring_case(a: &str, b: &str) -> (r: bool)
    ensures
        r == same_but_case(a@, b@),
{
    let x = chars_of(a);
    let y = chars_of(b);
    let ghost p = a@.map_values(|c: char| ascii_lower(c));
    let ghost q = b@.map_values(|c: char| ascii_lower(c));
    if x.len() != y.len() {
        assert(p.len() != q.len());
        return false;
    }
    for i in 0..x.len()
        invariant
            x@.len() == y@.len(),
            p == x@.map_values(|c: char| ascii_lower(c)),
            q == y@.map_values(|c: char| ascii_lower(c)),
            p == a@.map_values(|c: char| ascii_lower(c)),
            q == b@.map_values(|c: char| ascii_lower(c)),
            forall|j: int| 0 <= j < i ==> p[j] == q[j],
    {
        if lower(x[i]) != lower(y[i]) {
            assert(p[i as int] != q[i as int]);
            return false;
        }
    }
    assert(p =~= q);
    true
}

/// Whether a text stands in another at a given place.
pub open spec fn occurs_at(s: Seq<char>, part: Seq<char>, at: int) -> bool {
    &&& 0 <= at
    &&& at + part.len() <= s.len()
    &&& s.subrange(at, at + part.len()) == part
}

/// The first place, from a given one on, where a text stands in another.
pub open spec fn occurrence_from(s: Seq<char>, part: Seq<char>, from: int) -> Option<int>
    decreases s.len() + 1 - from,
{
    if from + part.len() > s.len() {
        None
    } else if occurs_at(s, part, from) {
        Some(from)
    } else {
        occurrence_from(s, part, from + 1)
    }
}

/// The first place where a text stands in another.
pub open spec fn first_occurrence(s: Seq<char>, part: Seq<char>) -> Option<int> {
    occurrence_from(s, part, 0)
}

proof fn occurrence_is(s: Seq<char>, part: Seq<char>, from: int)
    requires
        0 <= from,
    ensures
        match occurrence_from(s, part, from) {
            Some(at) => from <= at && occurs_at(s, part, at) && forall|k: int|
                from <= k < at ==> !#[trigger] occurs_at(s, part, k),
            None => forall|k: int| from <= k ==> !#[trigger] occurs_at(s, part, k),
        },
    decreases s.len() + 1 - from,
{
    if from + part.len() <= s.len() && !occurs_at(s, part, from) {
        occurrence_is(s, part, from + 1);
    }
}

/// A text is found where it stands and at no place before that.
pub proof fn first_occurrence_is(s: Seq<char>, part: Seq<char>)
    ensures
        match first_occurrence(s, part) {
            Some(at) => occurs_at(s, part, at) && forall|k: int|
                0 <= k < at ==> !#[trigger] occurs_at(s, part, k),
            None => forall|k: int| 0 <= k ==> !#[trigger] occurs_at(s, part, k),
        },
{
    occurrence_is(s, part, 0);
}

proof fn stands_not_at(s: Seq<char>, part: Seq<char>, at: int)
    requires
        part.len() > 0,
        0 <= at < s.len(),
        s[at] != part[0],
    ensures
        !occurs_at(s, part, at),
{
    if occurs_at(s, part, at) {
        assert(s.subrange(at, at + part.len())[0] == s[at]);
    }
}

proof fn occurrence_after(s: Seq<char>, part: Seq<char>, from: int, at: int)
    requires
        part.len() > 0,
        0 <= from <= at,
        occurs_at(s, part, at),
        forall|k: int| from <= k < at ==> #[trigger] s[k] != part[0],
    ensures
        occurrence_from(s, part, from) == Some(at),
    decreases at - from,
{
    if from < at {
        assert(s[from] != part[0]);
        stands_not_at(s, part, from);
        occurrence_after(s, part, from + 1, at);
    }
}

proof fn no_occurrence(s: Seq<char>, part: Seq<char>, from: int)
    requires
        part.len() > 0,
        0 <= from,
        forall|k: int| from <= k < s.len() ==> #[trigger] s[k] != part[0],
    ensures
        occurrence_from(s, part, from) is None,
    decreases s.len() + 1 - from,
{
    if from + part.len() <= s.len() {
        assert(s[from] != part[0]);
        stands_not_at(s, part, from);
        no_occurrence(s, part, from + 1);
    }
}

/// A text without the first character of a separator is what stands before it.
pub proof fn halves_are(before: Seq<char>, separator: Seq<char>, after: Seq<char>)
    requires
        separator.len() > 0,
        !before.contains(separator[0]),
    ensures
        halves(before + separator + after, separator) == Some((before, after)),
        halves(before, separator) is None,
{
    let s = before + separator + after;
    let at = before.len() as int;
    assert forall|k: int| 0 <= k < before.len() implies #[trigger] before[k] != separator[0] by {
        assert(before.contains(before[k]));
    }
    assert(s.subrange(at, at + separator.len()) =~= separator);
    assert forall|k: int| 0 <= k < at implies #[trigger] s[k] != separator[0] by {
        assert(s[k] == before[k]);
    }
    occurrence_after(s, separator, 0, at);
    no_occurrence(before, separator, 0);
    assert(s.take(at) =~= before);
    assert(s.skip(at + separator.len()) =~= after);
}

/// What stands before a separator of one character does not have it.
pub proof fn halves_lack(s: Seq<char>, separator: Seq<char>)
    requires
        separator.len() == 1,
    ensures
        match halves(s, separator) {
            Some((before, _)) => !before.contains(separator[0]),
            None => !s.contains(separator[0]),
        },
{
    first_occurrence_is(s, separator);
    assert forall|k: int| 0 <= k < s.len() && s[k] == separator[0] implies #[trigger] occurs_at(
        s,
        separator,
        k,
    ) by {
        assert(s.subrange(k, k + 1) =~= separator);
    }
    if first_occurrence(s, separator) is None && s.contains(separator[0]) {
        let k = s.index_of(separator[0]);
        assert(occurs_at(s, separator, k));
    }
    if let Some(at) = first_occurrence(s, separator) {
        if s.take(at).contains(separator[0]) {
            let k = s.take(at).index_of(separator[0]);
            assert(s.take(at)[k] == s[k]);
            assert(occurs_at(s, separator, k));
        }
    }
}

fn stands_at(s: &Vec<char>, part: &Vec<char>, at: usize) -> (r: bool)
    requires
        at + part@.len() <= s@.len(),
    ensures
        r == occurs_at(s@, part@, at as int),
{
    let ghost there = s@.subrange(at as int, at + part@.len());
    let size = s.len();
    for j in 0..part.len()
        invariant
            at + part@.len() <= s@.len() == size,
            there == s@.subrange(at as int, at + part@.len()),
            forall|k: int| 0 <= k < j ==> there[k] == part@[k],
    {
        if s[at + j] != part[j] {
            assert(there[j as int] != part@[j as int]);
            return false;
        }
    }
    assert(there =~= part@);
    true
}

/// Finds the first place where a text stands in another.
pub fn find(s: &Vec<char>, part: &Vec<char>) -> (r: Option<usize>)
    ensures
        match r {
            Some(at) => first_occurrence(s@, part@) == Some(at as int),
            None => first_occurrence(s@, part@) is None,
        },
        r matches Some(at) ==> at + part@.len() <= s@.len(),
{
    if part.len() > s.len() {
        return None;
    }
    let last: usize = s.len() - part.len();
    for at in 0..last
        invariant
            last == s@.len() - part@.len(),
            first_occurrence(s@, part@) == occurrence_from(s@, part@, at as int),
    {
        if stands_at(s, part, at) {
            return Some(at);
        }
    }
    assert(occurrence_from(s@, part@, last + 1) is None);
    if stands_at(s, part, last) {
        Some(last)
    } else {
        None
    }
}

/// Whether a text stands anywhere in another.
pub fn contains(text: &str, part: &str) -> (r: bool)
    ensures
        r == (first_occurrence(text@, part@) is Some),
{
    let s = chars_of(text);
    let p = chars_of(part);
    find(&s, &p).is_some()
}

/// Whether a text opens with another.
pub fn starts_with(text: &str, prefix: &str) -> (r: bool)
    ensures
        r == occurs_at(text@, prefix@, 0),
{
    let s = chars_of(text);
    let p = chars_of(prefix);
    p.len() <= s.len() && stands_at(&s, &p, 0)
}

/// What stands before and after the first separator of a text.
pub open spec fn halves(s: Seq<char>, separator: Seq<char>) -> Option<(Seq<char>, Seq<char>)> {
    match first_occurrence(s, separator) {
        Some(at) => Some((s.take(at), s.skip(at + separator.len()))),
        None => None,
    }
}

/// Cuts a text at its first separator.
pub fn split_once(text: &str, separator: &str) -> (r: Option<(String, String)>)
    ensures
        match r {
            Some((before, after)) => halves(text@, separator@) == Some((before@, after@)),
            None => halves(text@, separator@) is None,
        },
{
    let s = chars_of(text);
    let p = chars_of(separator);
    match find(&s, &p) {
        Some(at) => {
            let size = s.len();
            let before = between(&s, 0, at);
            let after = between(&s, at + p.len(), size);
            assert(s@.subrange(0, at as int) =~= s@.take(at as int));
            assert(s@.subrange(at + p@.len(), s@.len() as int) =~= s@.skip(at + p@.len()));
            Some((before, after))
        },
        None => None,
    }
}

/// Texts one after the other with a separator between them.
pub open spec fn joined(parts: Seq<Seq<char>>, separator: Seq<char>) -> Seq<char>
    decreases parts.len(),
{
    if parts.len() == 0 {
        Seq::empty()
    } else if parts.len() == 1 {
        parts[0]
    } else {
        joined(parts.drop_last(), separator) + separator + parts.last()
    }
}

/// Writes texts one after the other with a separator between them.
pub fn join(parts: &Vec<String>, separator: &str) -> (r: String)
    ensures
        r@ == joined(texts(parts@), separator@),
{
    let mut r = String::new();
    let ghost all = texts(parts@);
    for i in 0..parts.len()
        invariant
            all == texts(parts@),
            r@ == joined(all.take(i as int), separator@),
    {
        assert(all.take(i + 1).drop_last() =~= all.take(i as int));
        if i > 0 {
            r.append(separator);
            r.append(parts[i].as_str());
        } else {
            r.append(parts[i].as_str());
            assert(all.take(1)[0] == parts@[0]@);
            assert(r@ =~= parts@[0]@);
        }
    }
    assert(all.take(all.len() as int) =~= all);
    r
}

/// Two texts, one after the other.
pub fn concat(a: &str, b: &str) -> (r: String)
    ensures
        r@ == a@ + b@,
{
    let mut r = a.to_owned();
    r.append(b);
    r
}

/// What is left of a text behind the prefix it opens with.
pub fn strip_prefix(text: &str, prefix: &str) -> (r: Option<String>)
    ensures
        maybe_text(r) == (if occurs_at(text@, prefix@, 0) {
            Some(text@.skip(prefix@.len() as int))
        } else {
            None
        }),
{
    let s = chars_of(text);
    let p = chars_of(prefix);
    if p.len() <= s.len() && stands_at(&s, &p, 0) {
        let rest = between(&s, p.len(), s.len());
        assert(rest@ =~= text@.skip(prefix@.len() as int));
        Some(rest)
    } else {
        None
    }
}

/// The lines of a text: a line ends with a line feed, and a carriage return
/// before it belongs to the ending. What follows the last ending is a line of
/// its own when there is anything.
pub open spec fn lines(s: Seq<char>) -> Seq<Seq<char>> {
    let parts = pieces(s, '\n');
    let ended = parts.drop_last().map_values(|part: Seq<char>| without_return(part));
    if parts.last().len() == 0 {
        ended
    } else {
        ended.push(parts.last())
    }
}

/// A text without the carriage return it may end with.
pub open spec fn without_return(s: Seq<char>) -> Seq<char> {
    if s.len() > 0 && s.last() == '\r' {
        s.drop_last()
    } else {
        s
    }
}

fn drop_return(text: &str) -> (r: String)
    ensures
        r@ == without_return(text@),
{
    let all = chars_of(text);
    let size: usize = all.len();
    if size > 0 && all[size - 1] == '\r' {
        let r = between(&all, 0, size - 1);
        assert(r@ =~= text@.drop_last());
        r
    } else {
        string_of(&all)
    }
}

/// Cuts a text into its lines.
pub fn split_lines(text: &str) -> (r: Vec<String>)
    ensures
        texts(r@) == lines(text@),
{
    let parts = split(text, '\n');
    let ghost views = pieces(text@, '\n');
    proof {
        pieces_not_empty(text@, '\n');
    }
    let last: usize = parts.len() - 1;
    let mut r: Vec<String> = Vec::new();
    let ghost ended = views.drop_last().map_values(|part: Seq<char>| without_return(part));
    assert(texts(r@) =~= ended.take(0));
    for i in 0..last
        invariant
            views == texts(parts@),
            last == parts@.len() - 1,
            ended == views.drop_last().map_values(|part: Seq<char>| without_return(part)),
            texts(r@) == ended.take(i as int),
    {
        let line = drop_return(parts[i].as_str());
        proof {
            texts_push(r@, line);
        }
        r.push(line);
        assert(ended.take(i + 1) =~= ended.take(i as int).push(ended[i as int]));
    }
    assert(ended.take(last as int) =~= ended);
    assert(views.last() == parts@[last as int]@);
    if !parts[last].as_str().is_empty() {
        let line = parts[last].clone();
        proof {
            texts_push(r@, line);
        }
        r.push(line);
    }
    r
}

/// Where the first white space of a text is, or its end when it has none.
pub open spec fn word_end(s: Seq<char>) -> int
    decreases s.len(),
{
    if s.len() == 0 || is_white_space(s[0]) {
        0
    } else {
        1 + word_end(s.skip(1))
    }
}

/// The second of the words of a text, which white space separates.
pub open spec fn second_word(s: Seq<char>) -> Option<Seq<char>> {
    let first = trimmed_start(s);
    let rest = trimmed_start(first.skip(word_end(first)));
    if rest.len() == 0 {
        None
    } else {
        Some(rest.take(word_end(rest)))
    }
}

fn word_start_from(all: &Vec<char>, from: usize) -> (r: usize)
    requires
        from <= all@.len(),
    ensures
        from <= r <= all@.len(),
        all@.skip(r as int) == trimmed_start(all@.skip(from as int)),
{
    let mut at: usize = from;
    while at < all.len() && white_space(all[at])
        invariant
            from <= at <= all@.len(),
            trimmed_start(all@.skip(at as int)) == trimmed_start(all@.skip(from as int)),
        decreases all@.len() - at,
    {
        assert(all@.skip(at as int).skip(1) =~= all@.skip(at + 1));
        at = at + 1;
    }
    at
}

fn word_end_from(all: &Vec<char>, from: usize) -> (r: usize)
    requires
        from <= all@.len(),
    ensures
        from <= r <= all@.len(),
        r == from + word_end(all@.skip(from as int)),
{
    let mut at: usize = from;
    while at < all.len() && !white_space(all[at])
        invariant
            from <= at <= all@.len(),
            at + word_end(all@.skip(at as int)) == from + word_end(all@.skip(from as int)),
        decreases all@.len() - at,
    {
        assert(all@.skip(at as int).skip(1) =~= all@.skip(at + 1));
        at = at + 1;
    }
    at
}

/// Finds the second word of a text.
pub fn find_second_word(text: &str) -> (r: Option<String>)
    ensures
        maybe_text(r) == second_word(text@),
{
    let all = chars_of(text);
    assert(all@.skip(0) =~= text@);
    let first: usize = word_start_from(&all, 0);
    let end: usize = word_end_from(&all, first);
    assert(all@.skip(first as int).skip(end - first) =~= all@.skip(end as int));
    let second: usize = word_start_from(&all, end);
    if second == all.len() {
        return None;
    }
    let stop: usize = word_end_from(&all, second);
    let word = between(&all, second, stop);
    assert(word@ =~= all@.skip(second as int).take(stop - second));
    Some(word)
}

/// The text bytes spell, with what is not UTF-8 replaced.
pub uninterp spec fn lossy_text(bytes: Seq<u8>) -> Seq<char>;

/// `String::from_utf8_lossy`: bytes that are UTF-8 read as the text they encode.
/// What is put in place of bytes that are not is not stated.
#[verifier::external_body]
pub(crate) fn read_lossy(bytes: &[u8]) -> (r: String)
    ensures
        r@ == lossy_text(bytes@),
        vstd::utf8::valid_utf8(bytes@) ==> r@ == vstd::utf8::decode_utf8(bytes@),
{
    String::from_utf8_lossy(bytes).into_owned()
}

pub open spec fn utf8_text(bytes: Seq<u8>) -> Option<Seq<char>> {
    if vstd::utf8::valid_utf8(bytes) {
        Some(vstd::utf8::decode_utf8(bytes))
    } else {
        None
    }
}

/// `std::str::from_utf8`: the text that bytes encode, when they are UTF-8.
#[verifier::external_body]
pub(crate) fn read_utf8(bytes: &[u8]) -> (r: Option<String>)
    ensures
        maybe_text(r) == utf8_text(bytes@),
{
    std::str::from_utf8(bytes).ok().map(|text| text.to_owned())
}

/// Whether every character of a text is ASCII.
pub open spec fn is_ascii_text(s: Seq<char>) -> bool {
    forall|i: int| 0 <= i < s.len() ==> (#[trigger] s[i] as u32) < 128
}

/// A text in lower case.
pub uninterp spec fn lowercase_text(text: Seq<char>) -> Seq<char>;

/// `str::to_lowercase`: ASCII text has its letters in lower case and is otherwise
/// as it was. What other text reads in lower case is not stated.
#[verifier::external_body]
pub(crate) fn lowercase(text: &str) -> (r: String)
    ensures
        r@ == lowercase_text(text@),
        is_ascii_text(text@) ==> r@ == text@.map_values(|c: char| ascii_lower(c)),
{
    text.to_lowercase()
}

/// A digit is written as its own character, and a larger number as the digits of
/// its tenth part with one more behind them.
pub proof fn law_decimal_notation(n: nat, d: nat)
    requires
        d < 10,
    ensures
        decimal_text(d) == seq![(48 + d) as char],
        n > 0 ==> decimal_text(10 * n + d) == decimal_text(n).push((48 + d) as char),
        signed_text(n as int) == decimal_text(n),
        n > 0 ==> signed_text(-n) == seq!['-'] + decimal_text(n),
{
}

/// What is written in decimal notation is made of digits, and reads back as the
/// number that was written.
pub proof fn law_decimal_reads_back(n: nat)
    ensures
        decimal_text(n).len() > 0,
        forall|i: int|
            0 <= i < decimal_text(n).len() ==> '0' <= #[trigger] decimal_text(n)[i] <= '9',
        decimal_value(decimal_text(n)) == n,
        n <= u64::MAX ==> parsed_u64(decimal_text(n)) == Some(n as u64),
        n <= u64::MAX ==> parsed_u64(seq!['+'] + decimal_text(n)) == Some(n as u64),
        n > u64::MAX ==> parsed_u64(decimal_text(n)) is None,
    decreases n,
{
    let text = decimal_text(n);
    if n < 10 {
        assert(text.drop_last() =~= Seq::empty());
        assert(decimal_value(Seq::<char>::empty()) == 0);
    } else {
        law_decimal_reads_back(n / 10);
        assert(text.drop_last() =~= decimal_text(n / 10));
    }
    assert(text[0] != '+');
    assert((seq!['+'] + text).skip(1) =~= text);
}

/// Digits are read one by one, each ten times what stands behind it.
pub proof fn law_digits_are_read_one_by_one(s: Seq<char>, d: nat)
    requires
        d < 10,
    ensures
        decimal_value(Seq::<char>::empty()) == 0,
        decimal_value(s.push((48 + d) as char)) == 10 * decimal_value(s) + d,
{
    assert(s.push((48 + d) as char).drop_last() =~= s);
}

/// A text that is empty, is a sign alone, or has anything but digits behind the
/// plus sign it may open with is no number.
pub proof fn law_only_digits_are_a_number(s: Seq<char>, i: int)
    requires
        s.len() == 0 || s == seq!['+'] || (0 <= i < s.len() && !('0' <= s[i] <= '9') && !(i == 0
            && s[0] == '+')),
    ensures
        parsed_u64(s) is None,
{
    let digits = unsigned_part(s);
    if s.len() > 0 && s != seq!['+'] {
        if s[0] == '+' {
            assert(digits[i - 1] == s[i]);
        } else {
            assert(digits[i] == s[i]);
        }
    }
}

/// White space is the tab, the line feed, the vertical tab, the form feed, the
/// carriage return, the space, and the few there are beyond ASCII.
pub proof fn law_white_space(c: char)
    ensures
        (c as u32) < 128 ==> is_white_space(c) == (c == ' ' || 9 <= c as u32 <= 13),
        c as u32 >= 128 ==> is_white_space(c) == (c as u32 == 0x85 || c as u32 == 0xa0 || c as u32
            == 0x1680 || 0x2000 <= c as u32 <= 0x200a || c as u32 == 0x2028 || c as u32 == 0x2029
            || c as u32 == 0x202f || c as u32 == 0x205f || c as u32 == 0x3000),
{
}

proof fn trimmed_start_is(s: Seq<char>) -> (k: int)
    ensures
        0 <= k <= s.len(),
        trimmed_start(s) == s.skip(k),
        forall|i: int| 0 <= i < k ==> is_white_space(#[trigger] s[i]),
        k < s.len() ==> !is_white_space(s[k]),
    decreases s.len(),
{
    if s.len() > 0 && is_white_space(s[0]) {
        let k = trimmed_start_is(s.skip(1));
        assert(s.skip(1).skip(k) =~= s.skip(k + 1));
        assert forall|i: int| 0 <= i < k + 1 implies is_white_space(#[trigger] s[i]) by {
            if i > 0 {
                assert(s.skip(1)[i - 1] == s[i]);
            }
        }
        k + 1
    } else {
        assert(s.skip(0) =~= s);
        0
    }
}

proof fn trimmed_end_is(s: Seq<char>) -> (k: int)
    ensures
        0 <= k <= s.len(),
        trimmed_end(s) == s.take(k),
        forall|i: int| k <= i < s.len() ==> is_white_space(#[trigger] s[i]),
        k > 0 ==> !is_white_space(s[k - 1]),
    decreases s.len(),
{
    if s.len() > 0 && is_white_space(s.last()) {
        let k = trimmed_end_is(s.drop_last());
        assert(s.drop_last().take(k) =~= s.take(k));
        assert forall|i: int| k <= i < s.len() implies is_white_space(#[trigger] s[i]) by {
            if i < s.len() - 1 {
                assert(s.drop_last()[i] == s[i]);
            }
        }
        k
    } else {
        assert(s.take(s.len() as int) =~= s);
        s.len() as int
    }
}

/// Trimming takes white space off both ends and nothing else, and leaves none at
/// either end.
pub proof fn law_trimming_takes_only_white_space_off(s: Seq<char>) -> (r: (int, int))
    ensures
        0 <= r.0 <= r.1 <= s.len(),
        trimmed(s) == s.subrange(r.0, r.1),
        forall|i: int| 0 <= i < r.0 ==> is_white_space(#[trigger] s[i]),
        forall|i: int| r.1 <= i < s.len() ==> is_white_space(#[trigger] s[i]),
        trimmed(s).len() > 0 ==> !is_white_space(trimmed(s)[0]) && !is_white_space(
            trimmed(s).last(),
        ),
{
    let a = trimmed_start_is(s);
    let rest = s.skip(a);
    let k = trimmed_end_is(rest);
    assert(rest.take(k) =~= s.subrange(a, a + k));
    assert forall|i: int| a + k <= i < s.len() implies is_white_space(#[trigger] s[i]) by {
        assert(rest[i - a] == s[i]);
    }
    (a, a + k)
}

/// Only slashes are taken off the end of a text, and none is left there.
pub proof fn law_only_end_slashes_are_taken_off(s: Seq<char>) -> (k: int)
    ensures
        0 <= k <= s.len(),
        without_end_slashes(s) == s.take(k),
        forall|i: int| k <= i < s.len() ==> #[trigger] s[i] == '/',
        k > 0 ==> s[k - 1] != '/',
    decreases s.len(),
{
    if s.len() > 0 && s.last() == '/' {
        let k = law_only_end_slashes_are_taken_off(s.drop_last());
        assert(s.drop_last().take(k) =~= s.take(k));
        assert forall|i: int| k <= i < s.len() implies #[trigger] s[i] == '/' by {
            if i < s.len() - 1 {
                assert(s.drop_last()[i] == s[i]);
            }
        }
        k
    } else {
        assert(s.take(s.len() as int) =~= s);
        s.len() as int
    }
}

/// The pieces of a text have no separator in them, and are the text again with
/// one between each two.
pub proof fn law_pieces_are_what_separators_part(s: Seq<char>, separator: char)
    ensures
        pieces(s, separator).len() > 0,
        joined(pieces(s, separator), seq![separator]) == s,
        forall|i: int|
            0 <= i < pieces(s, separator).len() ==> !(#[trigger] pieces(s, separator)[i]).contains(
                separator,
            ),
    decreases s.len(),
{
    let all = pieces(s, separator);
    if s.len() > 0 {
        let front = s.drop_last();
        let before = pieces(front, separator);
        law_pieces_are_what_separators_part(front, separator);
        if s.last() == separator {
            assert(all.drop_last() =~= before);
            assert(joined(all, seq![separator]) =~= s);
        } else {
            let last = before.last().push(s.last());
            assert(all.drop_last() =~= before.drop_last());
            assert(before[before.len() - 1] == before.last());
            if before.len() == 1 {
                assert(joined(before, seq![separator]) == before[0]);
                assert(joined(all, seq![separator]) == all[0]);
                assert(front == before.last());
            } else {
                let head = joined(before.drop_last(), seq![separator]) + seq![separator];
                assert(front == head + before.last());
                assert(joined(all, seq![separator]) == head + last);
                assert(head + last =~= front.push(s.last()));
            }
            assert(front.push(s.last()) =~= s);
        }
        assert forall|i: int| 0 <= i < all.len() implies !(#[trigger] all[i]).contains(
            separator,
        ) by {
            if i < before.len() - 1 || s.last() == separator && i < before.len() {
                assert(all[i] == before[i]);
            } else if s.last() != separator {
                let last = all[i];
                assert(before[before.len() - 1] == before.last());
                assert(last == before.last().push(s.last()));
                if last.contains(separator) {
                    let k = last.index_of(separator);
                    assert(k < before.last().len());
                    assert(before.last()[k] == separator);
                }
            }
        }
    }
}

/// Texts are put one after the other, with a separator between each two and none
/// around them.
pub proof fn law_texts_are_joined(parts: Seq<Seq<char>>, part: Seq<char>, separator: Seq<char>)
    ensures
        joined(Seq::empty(), separator) == Seq::<char>::empty(),
        joined(seq![part], separator) == part,
        parts.len() > 0 ==> joined(parts.push(part), separator) == joined(parts, separator)
            + separator + part,
{
    assert(parts.push(part).drop_last() =~= parts);
}

/// Two texts are the same but for case exactly when they are as long as each
/// other and each two characters are one, or an ASCII letter in its two cases.
pub proof fn law_only_ascii_letters_have_a_case(a: Seq<char>, b: Seq<char>)
    ensures
        same_but_case(a, b) == (a.len() == b.len() && forall|i: int|
            0 <= i < a.len() ==> (#[trigger] a[i] == b[i] || ('A' <= a[i] <= 'Z' && b[i] as u32
                == a[i] as u32 + 32) || ('A' <= b[i] <= 'Z' && a[i] as u32 == b[i] as u32 + 32))),
{
    let p = a.map_values(|c: char| ascii_lower(c));
    let q = b.map_values(|c: char| ascii_lower(c));
    if same_but_case(a, b) {
        assert(p.len() == q.len());
        assert forall|i: int| 0 <= i < a.len() implies (#[trigger] a[i] == b[i] || ('A' <= a[i]
            <= 'Z' && b[i] as u32 == a[i] as u32 + 32) || ('A' <= b[i] <= 'Z' && a[i] as u32
            == b[i] as u32 + 32)) by {
            assert(p[i] == q[i]);
            assert(p[i] == ascii_lower(a[i]) && q[i] == ascii_lower(b[i]));
        }
    } else if a.len() == b.len() && forall|i: int|
        0 <= i < a.len() ==> (#[trigger] a[i] == b[i] || ('A' <= a[i] <= 'Z' && b[i] as u32
            == a[i] as u32 + 32) || ('A' <= b[i] <= 'Z' && a[i] as u32 == b[i] as u32 + 32)) {
        assert forall|i: int| 0 <= i < a.len() implies #[trigger] p[i] == q[i] by {
            assert(p[i] == ascii_lower(a[i]) && q[i] == ascii_lower(b[i]));
        }
        assert(p =~= q);
    }
}

/// A text is cut at the first place where the separator stands, and put together
/// again around the separator. A text that is not cut has no separator in it.
pub proof fn law_a_text_is_cut_at_its_first_separator(
    s: Seq<char>,
    separator: Seq<char>,
    x: Seq<char>,
    y: Seq<char>,
)
    ensures
        match halves(s, separator) {
            Some((before, after)) => s == before + separator + after && (s == x + separator + y
                ==> before.len() <= x.len()),
            None => s != x + separator + y,
        },
{
    first_occurrence_is(s, separator);
    if s == x + separator + y {
        assert(s.subrange(x.len() as int, (x.len() + separator.len()) as int) =~= separator);
        assert(occurs_at(s, separator, x.len() as int));
    }
    if let Some(at) = first_occurrence(s, separator) {
        assert(s =~= s.take(at) + separator + s.skip(at + separator.len()));
    }
}

/// A text stands in another exactly where it is a part of it.
pub proof fn law_a_text_stands_where_it_is_a_part(s: Seq<char>, before: Seq<char>, part: Seq<char>)
    ensures
        occurs_at(before + part + s, part, before.len() as int),
        first_occurrence(before + part + s, part) matches Some(at) && at <= before.len(),
{
    let all = before + part + s;
    assert(all.subrange(before.len() as int, (before.len() + part.len()) as int) =~= part);
    first_occurrence_is(all, part);
    assert(occurs_at(all, part, before.len() as int));
}

proof fn pieces_around(a: Seq<char>, separator: char, b: Seq<char>)
    ensures
        pieces(a + seq![separator] + b, separator) == pieces(a, separator) + pieces(b, separator),
    decreases b.len(),
{
    let all = a + seq![separator] + b;
    pieces_not_empty(b, separator);
    if b.len() == 0 {
        assert(all.drop_last() =~= a);
        assert(pieces(all, separator) =~= pieces(a, separator) + pieces(b, separator));
    } else {
        let front = b.drop_last();
        assert(all.drop_last() =~= a + seq![separator] + front);
        pieces_around(a, separator, front);
        pieces_not_empty(front, separator);
        let before = pieces(all.drop_last(), separator);
        assert(before.last() == pieces(front, separator).last());
        assert(all.last() == b.last());
        if b.last() == separator {
            assert(pieces(all, separator) =~= pieces(a, separator) + pieces(b, separator));
        } else {
            assert(before.drop_last() =~= pieces(a, separator) + pieces(
                front,
                separator,
            ).drop_last());
            assert(pieces(all, separator) =~= pieces(a, separator) + pieces(b, separator));
        }
    }
}

proof fn one_piece(s: Seq<char>, separator: char)
    requires
        !s.contains(separator),
    ensures
        pieces(s, separator) == seq![s],
    decreases s.len(),
{
    if s.len() > 0 {
        let front = s.drop_last();
        if front.contains(separator) {
            let k = front.index_of(separator);
            assert(s[k] == separator);
        }
        assert(s[s.len() - 1] == s.last());
        one_piece(front, separator);
        assert(front.push(s.last()) =~= s);
        assert(pieces(s, separator) =~= seq![s]);
    } else {
        assert(s =~= Seq::empty());
    }
}

/// A line ends with its line feed, and a carriage return before that belongs to the
/// ending. What follows is read as lines of its own, and what stands last without an
/// ending is a line when there is anything.
pub proof fn law_a_line_ends_with_its_line_feed(line: Seq<char>, rest: Seq<char>)
    requires
        !line.contains('\n'),
    ensures
        lines(Seq::empty()) == Seq::<Seq<char>>::empty(),
        line.len() > 0 ==> lines(line) == seq![line],
        line.len() == 0 || line.last() != '\r' ==> lines(line + seq!['\n'] + rest) == seq![line]
            + lines(rest),
        lines(line + seq!['\r', '\n'] + rest) == seq![line] + lines(rest),
{
    let none = Seq::<char>::empty();
    one_piece(none, '\n');
    assert(lines(none) =~= Seq::empty());
    one_piece(line, '\n');
    assert(seq![line].drop_last() =~= Seq::empty());
    if line.len() > 0 {
        assert(lines(line) =~= seq![line]);
    }
    line_then(line, rest);
    let long = line.push('\r');
    if long.contains('\n') {
        let k = long.index_of('\n');
        assert(k < line.len());
        assert(line[k] == '\n');
    }
    line_then(long, rest);
    assert(long.drop_last() =~= line);
    assert(long + seq!['\n'] + rest =~= line + seq!['\r', '\n'] + rest);
}

proof fn line_then(line: Seq<char>, rest: Seq<char>)
    requires
        !line.contains('\n'),
    ensures
        lines(line + seq!['\n'] + rest) == seq![without_return(line)] + lines(rest),
{
    pieces_around(line, '\n', rest);
    one_piece(line, '\n');
    pieces_not_empty(rest, '\n');
    let parts = pieces(line + seq!['\n'] + rest, '\n');
    let after = pieces(rest, '\n');
    assert(parts.drop_last() =~= seq![line] + after.drop_last());
    assert(parts.last() == after.last());
    let ended = parts.drop_last().map_values(|part: Seq<char>| without_return(part));
    let left = after.drop_last().map_values(|part: Seq<char>| without_return(part));
    assert(ended =~= seq![without_return(line)] + left);
    assert(lines(line + seq!['\n'] + rest) =~= seq![without_return(line)] + lines(rest));
}

proof fn word_end_is(s: Seq<char>, k: int)
    requires
        0 <= k <= s.len(),
        forall|i: int| 0 <= i < k ==> !is_white_space(#[trigger] s[i]),
        k < s.len() ==> is_white_space(s[k]),
    ensures
        word_end(s) == k,
    decreases k,
{
    if k > 0 {
        let rest = s.skip(1);
        assert forall|i: int| 0 <= i < k - 1 implies !is_white_space(#[trigger] rest[i]) by {
            assert(rest[i] == s[i + 1]);
        }
        assert(!is_white_space(s[0]));
        word_end_is(rest, k - 1);
    }
}

proof fn white_space_skipped(gap: Seq<char>, rest: Seq<char>)
    requires
        forall|i: int| 0 <= i < gap.len() ==> is_white_space(#[trigger] gap[i]),
        rest.len() == 0 || !is_white_space(rest[0]),
    ensures
        trimmed_start(gap + rest) == rest,
    decreases gap.len(),
{
    let all = gap + rest;
    if gap.len() == 0 {
        assert(all =~= rest);
    } else {
        let less = gap.skip(1);
        assert forall|i: int| 0 <= i < less.len() implies is_white_space(#[trigger] less[i]) by {
            assert(less[i] == gap[i + 1]);
        }
        white_space_skipped(less, rest);
        assert(is_white_space(gap[0]));
        assert(all[0] == gap[0]);
        assert(all.skip(1) =~= less + rest);
    }
}

/// The second word of a text is what stands between the white space behind its first
/// word and the next, or the end. A text of one word has none.
pub proof fn law_the_second_word(
    first: Seq<char>,
    gap: Seq<char>,
    second: Seq<char>,
    rest: Seq<char>,
)
    requires
        first.len() > 0,
        second.len() > 0,
        gap.len() > 0,
        forall|i: int| 0 <= i < first.len() ==> !is_white_space(#[trigger] first[i]),
        forall|i: int| 0 <= i < second.len() ==> !is_white_space(#[trigger] second[i]),
        forall|i: int| 0 <= i < gap.len() ==> is_white_space(#[trigger] gap[i]),
        rest.len() > 0 ==> is_white_space(rest[0]),
    ensures
        second_word(first + gap + second + rest) == Some(second),
        second_word(first) is None,
        second_word(first + gap) is None,
{
    let all = first + gap + second + rest;
    assert(!is_white_space(first[0]));
    assert(is_white_space(gap[0]));
    assert(all[0] == first[0]);
    assert forall|i: int| 0 <= i < first.len() implies !is_white_space(#[trigger] all[i]) by {
        assert(all[i] == first[i]);
    }
    assert(all[first.len() as int] == gap[0]);
    word_end_is(all, first.len() as int);
    let tail = second + rest;
    assert(all.skip(first.len() as int) =~= gap + tail);
    assert(tail[0] == second[0]);
    assert(!is_white_space(second[0]));
    white_space_skipped(gap, tail);
    assert forall|i: int| 0 <= i < second.len() implies !is_white_space(#[trigger] tail[i]) by {
        assert(tail[i] == second[i]);
    }
    if rest.len() > 0 {
        assert(tail[second.len() as int] == rest[0]);
    }
    word_end_is(tail, second.len() as int);
    assert(tail.take(second.len() as int) =~= second);
    word_end_is(first, first.len() as int);
    assert(first.skip(first.len() as int) =~= Seq::empty());
    let short = first + gap;
    assert(short[0] == first[0]);
    assert forall|i: int| 0 <= i < first.len() implies !is_white_space(#[trigger] short[i]) by {
        assert(short[i] == first[i]);
    }
    assert(short[first.len() as int] == gap[0]);
    word_end_is(short, first.len() as int);
    assert(short.skip(first.len() as int) =~= gap + Seq::empty());
    white_space_skipped(gap, Seq::empty());
}

/// Strings read as their characters, each where it stands, and one that is absent as
/// absent.
pub proof fn law_strings_read_as_their_characters(all: Seq<String>, text: String, i: int)
    requires
        0 <= i < all.len(),
    ensures
        texts(all).len() == all.len(),
        texts(all)[i] == all[i]@,
        maybe_text(Some(text)) == Some(text@),
        maybe_text(None) is None,
{
}

/// A letter is lowered by its place in the alphabet, and nothing else is.
pub proof fn law_only_ascii_capitals_are_lowered(c: char)
    ensures
        'A' <= c <= 'Z' ==> ascii_lower(c) as u32 == c as u32 + 32 && 'a' <= ascii_lower(c) <= 'z',
        !('A' <= c <= 'Z') ==> ascii_lower(c) == c,
{
}

/// The digits of a number in hexadecimal notation are those of its sixteenth part and
/// one more: the ten decimal digits, and the letters from a to f.
pub proof fn law_hexadecimal_notation(n: nat, d: nat)
    requires
        d < 16,
    ensures
        d < 10 ==> hex_text(d) == seq![(48 + d) as char],
        d >= 10 ==> hex_text(d) == seq![(97 + d - 10) as char],
        n > 0 ==> hex_text(16 * n + d) == hex_text(n) + hex_text(d),
{
    if n > 0 {
        assert(hex_text(16 * n + d) =~= hex_text(n) + hex_text(d));
    }
}

/// Every run of digits that is small enough is the number it spells, leading zeros and a
/// plus sign before it or not, and one that is too large is none.
pub proof fn law_every_run_of_digits_is_a_number(s: Seq<char>)
    requires
        s.len() > 0,
        forall|i: int| 0 <= i < s.len() ==> '0' <= #[trigger] s[i] <= '9',
    ensures
        decimal_value(s) <= u64::MAX ==> parsed_u64(s) == Some(decimal_value(s) as u64)
            && parsed_u64(seq!['+'] + s) == Some(decimal_value(s) as u64),
        decimal_value(s) > u64::MAX ==> parsed_u64(s) is None && parsed_u64(seq!['+'] + s) is None,
        decimal_value(seq!['0'] + s) == decimal_value(s),
    decreases s.len(),
{
    assert(s[0] != '+');
    assert((seq!['+'] + s).skip(1) =~= s);
    let padded = seq!['0'] + s;
    assert(padded.last() == s.last());
    if s.len() == 1 {
        assert(padded.drop_last() =~= seq!['0']);
        assert(seq!['0'].drop_last() =~= Seq::empty());
        assert(s.drop_last() =~= Seq::empty());
        reveal_with_fuel(decimal_value, 3);
    } else {
        let front = s.drop_last();
        assert forall|i: int| 0 <= i < front.len() implies '0' <= #[trigger] front[i] <= '9' by {
            assert(front[i] == s[i]);
        }
        law_every_run_of_digits_is_a_number(front);
        assert(padded.drop_last() =~= seq!['0'] + front);
    }
}

/// White space before the words of a text does not matter.
pub proof fn law_words_are_found_behind_white_space(lead: Seq<char>, s: Seq<char>)
    requires
        forall|i: int| 0 <= i < lead.len() ==> is_white_space(#[trigger] lead[i]),
    ensures
        second_word(lead + s) == second_word(s),
    decreases lead.len(),
{
    let all = lead + s;
    if lead.len() == 0 {
        assert(all =~= s);
    } else {
        let less = lead.skip(1);
        assert forall|i: int| 0 <= i < less.len() implies is_white_space(#[trigger] less[i]) by {
            assert(less[i] == lead[i + 1]);
        }
        law_words_are_found_behind_white_space(less, s);
        assert(is_white_space(lead[0]));
        assert(all[0] == lead[0]);
        assert(all.skip(1) =~= less + s);
    }
}

}
