//! How the client address is decided.

use vstd::prelude::*;

use crate::text::{copy_maybe, maybe_text, pieces, same_but_case};
use crate::text::{same_ignoring_case, split, texts, texts_push, trim, trimmed};

verus! {

/// Enough of an incoming request for a selector to work with, whatever
/// framework it came from.
#[derive(Debug)]
pub struct RequestView {
    /// The request headers, each with its value.
    pub headers: Vec<(String, String)>,
    /// What the framework's own client-address accessor says.
    pub framework_ip: Option<String>,
}

/// The value of the first header that has a given name, compared without case.
pub open spec fn header_value(headers: Seq<(String, String)>, name: Seq<char>) -> Option<Seq<char>>
    decreases headers.len(),
{
    if headers.len() == 0 {
        None
    } else if same_but_case(headers[0].0@, name) {
        Some(headers[0].1@)
    } else {
        header_value(headers.skip(1), name)
    }
}

impl RequestView {
    /// A request header by name, without case.
    pub fn header(&self, name: &str) -> (r: Option<String>)
        ensures
            maybe_text(r) == header_value(self.headers@, name@),
    {
        assert(self.headers@.skip(0) =~= self.headers@);
        for i in 0..self.headers.len()
            invariant
                header_value(self.headers@, name@) == header_value(
                    self.headers@.skip(i as int),
                    name@,
                ),
        {
            assert(self.headers@.skip(i as int).skip(1) =~= self.headers@.skip(i + 1));
            if same_ignoring_case(self.headers[i].0.as_str(), name) {
                return Some(self.headers[i].1.clone());
            }
        }
        None
    }
}

/// How the client address is decided.
#[derive(Debug)]
pub enum IpSelector {
    /// The framework's own client-address accessor.
    FrameworkIp,
    /// An address from `X-Forwarded-For`, counted from the right.
    Xff(usize),
    /// An address from a single-value header the edge writes.
    Header(String),
}

/// The framework's own client-address accessor. The default.
pub fn framework_ip() -> (r: IpSelector)
    ensures
        r is FrameworkIp,
{
    IpSelector::FrameworkIp
}

/// An address from `X-Forwarded-For`.
///
/// The left-most entry, `depth` 0, is whatever the caller sent, so it is only
/// trustworthy when an edge under the same control overwrites the header. With
/// the number of proxies known, count from the right: depth 1 is the address the
/// nearest proxy saw.
pub fn xff(depth: usize) -> (r: IpSelector)
    ensures
        r == IpSelector::Xff(depth),
{
    IpSelector::Xff(depth)
}

/// An address from a single-value header the edge writes, or from the
/// framework's accessor when that header is absent.
pub fn header(name: String) -> (r: IpSelector)
    ensures
        r matches IpSelector::Header(n) && n@ == name@,
{
    IpSelector::Header(name)
}

/// The entries that are not blank, without the white space around them.
pub open spec fn entries(parts: Seq<Seq<char>>) -> Seq<Seq<char>>
    decreases parts.len(),
{
    if parts.len() == 0 {
        Seq::empty()
    } else if trimmed(parts.last()).len() == 0 {
        entries(parts.drop_last())
    } else {
        entries(parts.drop_last()).push(trimmed(parts.last()))
    }
}

/// The addresses a forwarding header lists.
pub open spec fn chain(raw: Seq<char>) -> Seq<Seq<char>> {
    entries(pieces(raw, ','))
}

/// The place in a chain of the address a depth asks for: the first for depth 0,
/// and for one beyond the chain, else so many from the end.
pub open spec fn chain_index(len: nat, depth: nat) -> int {
    if depth == 0 || depth > len {
        0
    } else {
        len - depth
    }
}

/// The address a selector takes from a request.
pub open spec fn selected(selector: IpSelector, view: RequestView) -> Option<Seq<char>> {
    let fallback = maybe_text(view.framework_ip);
    match selector {
        IpSelector::FrameworkIp => fallback,
        IpSelector::Xff(depth) => {
            let raw = match header_value(view.headers@, "x-forwarded-for"@) {
                Some(raw) => raw,
                None => Seq::empty(),
            };
            if chain(raw).len() == 0 {
                fallback
            } else {
                Some(chain(raw)[chain_index(chain(raw).len(), depth as nat)])
            }
        },
        IpSelector::Header(name) => match header_value(view.headers@, name@) {
            Some(value) => if trimmed(value).len() == 0 {
                fallback
            } else {
                Some(trimmed(value))
            },
            None => fallback,
        },
    }
}

/// Reads the addresses a forwarding header lists.
fn read_chain(raw: &str) -> (r: Vec<String>)
    ensures
        texts(r@) == chain(raw@),
{
    let parts = split(raw, ',');
    let mut r: Vec<String> = Vec::new();
    assert(texts(r@) =~= Seq::empty());
    for i in 0..parts.len()
        invariant
            texts(r@) == entries(texts(parts@).take(i as int)),
    {
        assert(texts(parts@).take(i + 1).drop_last() =~= texts(parts@).take(i as int));
        let entry = trim(parts[i].as_str());
        if !entry.as_str().is_empty() {
            proof {
                texts_push(r@, entry);
            }
            r.push(entry);
        }
    }
    assert(texts(parts@).take(parts@.len() as int) =~= texts(parts@));
    r
}

impl IpSelector {
    /// The address this selector takes from a request.
    pub fn select(&self, view: &RequestView) -> (r: Option<String>)
        ensures
            maybe_text(r) == selected(*self, *view),
    {
        match self {
            IpSelector::FrameworkIp => copy_maybe(&view.framework_ip),
            IpSelector::Xff(depth) => {
                let raw = match view.header("x-forwarded-for") {
                    Some(raw) => raw,
                    None => String::new(),
                };
                let chain = read_chain(raw.as_str());
                let count: usize = chain.len();
                if count == 0 {
                    return copy_maybe(&view.framework_ip);
                }
                let index: usize = if *depth == 0 || *depth > count {
                    0
                } else {
                    count - *depth
                };
                assert(texts(chain@)[index as int] == chain@[index as int]@);
                Some(chain[index].clone())
            },
            IpSelector::Header(name) => {
                match view.header(name.as_str()) {
                    Some(value) => {
                        let value = trim(value.as_str());
                        if value.as_str().is_empty() {
                            copy_maybe(&view.framework_ip)
                        } else {
                            Some(value)
                        }
                    },
                    None => copy_maybe(&view.framework_ip),
                }
            },
        }
    }
}

/// Counting from the right within a chain gives the address that so many
/// entries, it included, end the header with, whatever stands to its left.
pub proof fn law_a_depth_ignores_what_was_sent_first(
    sent: Seq<Seq<char>>,
    trusted: Seq<Seq<char>>,
    depth: nat,
)
    requires
        0 < depth <= trusted.len(),
    ensures
        (sent + trusted)[chain_index((sent + trusted).len(), depth)] == trusted[chain_index(
            trusted.len(),
            depth,
        )],
{
}

/// A header is found by its name whatever the case, and of two with one name the first
/// is the one.
pub proof fn law_the_first_header_of_a_name_is_the_one(
    headers: Seq<(String, String)>,
    name: Seq<char>,
    i: int,
)
    requires
        0 <= i <= headers.len(),
        forall|j: int| 0 <= j < i ==> !same_but_case((#[trigger] headers[j]).0@, name),
        i < headers.len() ==> same_but_case(headers[i].0@, name),
    ensures
        header_value(headers, name) == (if i < headers.len() {
            Some(headers[i].1@)
        } else {
            None
        }),
    decreases i,
{
    if i > 0 {
        let rest = headers.skip(1);
        assert(!same_but_case(headers[0].0@, name));
        assert forall|j: int| 0 <= j < i - 1 implies !same_but_case((#[trigger] rest[j]).0@, name) by {
            assert(rest[j] == headers[j + 1]);
        }
        law_the_first_header_of_a_name_is_the_one(rest, name, i - 1);
    }
}

/// Which address a selector takes: the framework's own; that of a header without the
/// space around it, or the framework's where the header is absent or blank; or that of
/// `X-Forwarded-For` so many from the right, its first for none and for more than there
/// are, or the framework's where it lists none.
pub proof fn law_which_address_a_selector_takes(
    view: RequestView,
    name: String,
    depth: usize,
)
    ensures
        ({
            let own = match view.framework_ip {
                Some(ip) => Some(ip@),
                None => None,
            };
            let listed = match header_value(view.headers@, "x-forwarded-for"@) {
                Some(raw) => chain(raw),
                None => Seq::empty(),
            };
            let held = header_value(view.headers@, name@);
            &&& selected(IpSelector::FrameworkIp, view) == own
            &&& held is None ==> selected(IpSelector::Header(name), view) == own
            &&& held matches Some(value) ==> selected(IpSelector::Header(name), view) == (
            if trimmed(value).len() == 0 {
                own
            } else {
                Some(trimmed(value))
            })
            &&& listed.len() == 0 ==> selected(IpSelector::Xff(depth), view) == own
            &&& listed.len() > 0 && (depth == 0 || depth > listed.len()) ==> selected(
                IpSelector::Xff(depth),
                view,
            ) == Some(listed[0])
            &&& 0 < depth <= listed.len() ==> selected(IpSelector::Xff(depth), view) == Some(
                listed[listed.len() - depth],
            )
        }),
{
    assert(chain(Seq::<char>::empty()) =~= Seq::empty()) by {
        let none = Seq::<char>::empty();
        let parts = pieces(none, ',');
        assert(parts =~= seq![none]);
        assert(parts.last() == none);
        assert(trimmed(none).len() == 0);
        assert(parts.drop_last() =~= Seq::empty());
        assert(entries(parts.drop_last()) =~= Seq::empty());
    }
}

/// A forwarding header lists what its commas part, in order, without the space around
/// each, and leaves blank entries out.
pub proof fn law_a_forwarding_header_lists_what_commas_part(
    parts: Seq<Seq<char>>,
    part: Seq<char>,
    raw: Seq<char>,
)
    ensures
        entries(Seq::empty()) == Seq::<Seq<char>>::empty(),
        trimmed(part).len() == 0 ==> entries(parts.push(part)) == entries(parts),
        trimmed(part).len() > 0 ==> entries(parts.push(part)) == entries(parts).push(trimmed(part)),
        chain(raw) == entries(pieces(raw, ',')),
{
    assert(parts.push(part).drop_last() =~= parts);
}

}
