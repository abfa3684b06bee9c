//! What a lookup answers.

use vstd::prelude::*;

use crate::json::{member_of, member_views, Json, JsonNumber, JsonView};
use crate::number::{integer, Number};
use crate::text::{copy_maybe, maybe_text, signed, signed_text};

verus! {

pub open spec fn number_view(n: Option<JsonNumber>) -> Option<(Seq<char>, Option<Number>)> {
    match n {
        Some(n) => Some((n.text@, n.value)),
        None => None,
    }
}

fn copy_number(n: &Option<JsonNumber>) -> (r: Option<JsonNumber>)
    ensures
        number_view(r) == number_view(*n),
{
    match n {
        Some(n) => Some(JsonNumber { text: n.text.clone(), value: n.value }),
        None => None,
    }
}

/// The detail behind `is_vpn`. Every member of an empty one is absent.
#[derive(Debug, PartialEq)]
pub struct VpnDetail {
    pub confidence: Option<String>,
    pub last_seen: Option<String>,
    pub method: Option<String>,
    pub provider: Option<String>,
}

pub struct VpnView {
    pub confidence: Option<Seq<char>>,
    pub last_seen: Option<Seq<char>>,
    pub method: Option<Seq<char>>,
    pub provider: Option<Seq<char>>,
}

impl View for VpnDetail {
    type V = VpnView;

    open spec fn view(&self) -> VpnView {
        VpnView {
            confidence: maybe_text(self.confidence),
            last_seen: maybe_text(self.last_seen),
            method: maybe_text(self.method),
            provider: maybe_text(self.provider),
        }
    }
}

impl Clone for VpnDetail {
    fn clone(&self) -> (r: Self)
        ensures
            r@ == self@,
    {
        VpnDetail {
            confidence: copy_maybe(&self.confidence),
            last_seen: copy_maybe(&self.last_seen),
            method: copy_maybe(&self.method),
            provider: copy_maybe(&self.provider),
        }
    }
}

impl VpnView {
    pub open spec fn empty() -> VpnView {
        VpnView { confidence: None, last_seen: None, method: None, provider: None }
    }

    /// The members an object of it has on the wire.
    pub open spec fn wire(self) -> JsonView {
        JsonView::Object(
            text_member("confidence"@, self.confidence)
                + text_member("last_seen"@, self.last_seen)
                + text_member("method"@, self.method)
                + text_member("provider"@, self.provider),
        )
    }
}

impl VpnDetail {
    /// The detail of an address the flag does not hold of.
    pub fn empty() -> (r: Self)
        ensures
            r@ == VpnView::empty(),
    {
        VpnDetail { confidence: None, last_seen: None, method: None, provider: None }
    }

    /// The object of it on the wire, which leaves absent members out.
    pub fn wire(&self) -> (r: Json)
        ensures
            r@ == self@.wire(),
    {
        let mut members: Vec<(String, Json)> = Vec::new();
        put_text(&mut members, "confidence", &self.confidence);
        put_text(&mut members, "last_seen", &self.last_seen);
        put_text(&mut members, "method", &self.method);
        put_text(&mut members, "provider", &self.provider);
        Json::Object(members)
    }
}

/// The detail behind a flag that names one kind of network. Every member of an empty one is absent.
#[derive(Debug, PartialEq)]
pub struct ClassDetail {
    pub confidence: Option<String>,
    pub last_seen: Option<String>,
    pub provider: Option<String>,
}

pub struct ClassView {
    pub confidence: Option<Seq<char>>,
    pub last_seen: Option<Seq<char>>,
    pub provider: Option<Seq<char>>,
}

impl View for ClassDetail {
    type V = ClassView;

    open spec fn view(&self) -> ClassView {
        ClassView {
            confidence: maybe_text(self.confidence),
            last_seen: maybe_text(self.last_seen),
            provider: maybe_text(self.provider),
        }
    }
}

impl Clone for ClassDetail {
    fn clone(&self) -> (r: Self)
        ensures
            r@ == self@,
    {
        ClassDetail {
            confidence: copy_maybe(&self.confidence),
            last_seen: copy_maybe(&self.last_seen),
            provider: copy_maybe(&self.provider),
        }
    }
}

impl ClassView {
    pub open spec fn empty() -> ClassView {
        ClassView { confidence: None, last_seen: None, provider: None }
    }

    /// The members an object of it has on the wire.
    pub open spec fn wire(self) -> JsonView {
        JsonView::Object(
            text_member("confidence"@, self.confidence)
                + text_member("last_seen"@, self.last_seen)
                + text_member("provider"@, self.provider),
        )
    }
}

impl ClassDetail {
    /// The detail of an address the flag does not hold of.
    pub fn empty() -> (r: Self)
        ensures
            r@ == ClassView::empty(),
    {
        ClassDetail { confidence: None, last_seen: None, provider: None }
    }

    /// The object of it on the wire, which leaves absent members out.
    pub fn wire(&self) -> (r: Json)
        ensures
            r@ == self@.wire(),
    {
        let mut members: Vec<(String, Json)> = Vec::new();
        put_text(&mut members, "confidence", &self.confidence);
        put_text(&mut members, "last_seen", &self.last_seen);
        put_text(&mut members, "provider", &self.provider);
        Json::Object(members)
    }
}

/// The detail behind a proxy flag. Every member of an empty one is absent.
#[derive(Debug, PartialEq)]
pub struct ProxyDetail {
    pub first_seen: Option<String>,
    pub hits: Option<i32>,
    pub hits_days_pct: Option<JsonNumber>,
    pub last_seen: Option<String>,
    pub provider: Option<String>,
    pub providers_num: Option<i32>,
}

pub struct ProxyView {
    pub first_seen: Option<Seq<char>>,
    pub hits: Option<i32>,
    pub hits_days_pct: Option<(Seq<char>, Option<Number>)>,
    pub last_seen: Option<Seq<char>>,
    pub provider: Option<Seq<char>>,
    pub providers_num: Option<i32>,
}

impl View for ProxyDetail {
    type V = ProxyView;

    open spec fn view(&self) -> ProxyView {
        ProxyView {
            first_seen: maybe_text(self.first_seen),
            hits: self.hits,
            hits_days_pct: number_view(self.hits_days_pct),
            last_seen: maybe_text(self.last_seen),
            provider: maybe_text(self.provider),
            providers_num: self.providers_num,
        }
    }
}

impl Clone for ProxyDetail {
    fn clone(&self) -> (r: Self)
        ensures
            r@ == self@,
    {
        ProxyDetail {
            first_seen: copy_maybe(&self.first_seen),
            hits: self.hits,
            hits_days_pct: copy_number(&self.hits_days_pct),
            last_seen: copy_maybe(&self.last_seen),
            provider: copy_maybe(&self.provider),
            providers_num: self.providers_num,
        }
    }
}

impl ProxyView {
    pub open spec fn empty() -> ProxyView {
        ProxyView { first_seen: None, hits: None, hits_days_pct: None, last_seen: None, provider: None, providers_num: None }
    }

    /// The members an object of it has on the wire.
    pub open spec fn wire(self) -> JsonView {
        JsonView::Object(
            text_member("first_seen"@, self.first_seen)
                + integer_member("hits"@, self.hits)
                + number_member("hits_days_pct"@, self.hits_days_pct)
                + text_member("last_seen"@, self.last_seen)
                + text_member("provider"@, self.provider)
                + integer_member("providers_num"@, self.providers_num),
        )
    }
}

impl ProxyDetail {
    /// The detail of an address the flag does not hold of.
    pub fn empty() -> (r: Self)
        ensures
            r@ == ProxyView::empty(),
    {
        ProxyDetail { first_seen: None, hits: None, hits_days_pct: None, last_seen: None, provider: None, providers_num: None }
    }

    /// The object of it on the wire, which leaves absent members out.
    pub fn wire(&self) -> (r: Json)
        ensures
            r@ == self@.wire(),
    {
        let mut members: Vec<(String, Json)> = Vec::new();
        put_text(&mut members, "first_seen", &self.first_seen);
        put_integer(&mut members, "hits", &self.hits);
        put_number(&mut members, "hits_days_pct", &self.hits_days_pct);
        put_text(&mut members, "last_seen", &self.last_seen);
        put_text(&mut members, "provider", &self.provider);
        put_integer(&mut members, "providers_num", &self.providers_num);
        Json::Object(members)
    }
}

/// The member an object has for a value that may be absent.
pub open spec fn member(name: Seq<char>, value: Option<JsonView>) -> Seq<(Seq<char>, JsonView)> {
    match value {
        Some(value) => seq![(name, value)],
        None => Seq::empty(),
    }
}

pub open spec fn text_member(name: Seq<char>, value: Option<Seq<char>>) -> Seq<
    (Seq<char>, JsonView),
> {
    member(
        name,
        match value {
            Some(text) => Some(JsonView::Text(text)),
            None => None,
        },
    )
}

pub open spec fn integer_member(name: Seq<char>, value: Option<i32>) -> Seq<(Seq<char>, JsonView)> {
    member(
        name,
        match value {
            Some(n) => Some(
                JsonView::Number { text: signed_text(n as int), value: Some(integer(n as int)) },
            ),
            None => None,
        },
    )
}

pub open spec fn number_member(
    name: Seq<char>,
    value: Option<(Seq<char>, Option<Number>)>,
) -> Seq<(Seq<char>, JsonView)> {
    member(
        name,
        match value {
            Some((text, value)) => Some(JsonView::Number { text, value }),
            None => None,
        },
    )
}

fn put(members: &mut Vec<(String, Json)>, name: &str, value: Option<Json>)
    ensures
        member_views(final(members)@) == member_views(old(members)@) + member(
            name@,
            maybe_json(value),
        ),
{
    match value {
        Some(value) => {
            members.push((name.to_owned(), value));
            assert(members@.drop_last() =~= old(members)@);
        },
        None => {},
    }
}

pub open spec fn maybe_json(value: Option<Json>) -> Option<JsonView> {
    match value {
        Some(json) => Some(json@),
        None => None,
    }
}

fn put_text(members: &mut Vec<(String, Json)>, name: &str, value: &Option<String>)
    ensures
        member_views(final(members)@) == member_views(old(members)@) + text_member(
            name@,
            maybe_text(*value),
        ),
{
    match value {
        Some(text) => put(members, name, Some(Json::Text(text.clone()))),
        None => put(members, name, None),
    }
}

fn put_integer(members: &mut Vec<(String, Json)>, name: &str, value: &Option<i32>)
    ensures
        member_views(final(members)@) == member_views(old(members)@) + integer_member(name@, *value),
{
    match value {
        Some(n) => {
            let number = JsonNumber {
                text: signed(*n as i64),
                value: Some(Number::from_integer(*n as i64)),
            };
            put(members, name, Some(Json::Number(number)))
        },
        None => put(members, name, None),
    }
}

fn put_number(members: &mut Vec<(String, Json)>, name: &str, value: &Option<JsonNumber>)
    ensures
        member_views(final(members)@) == member_views(old(members)@) + number_member(
            name@,
            number_view(*value),
        ),
{
    match copy_number(value) {
        Some(number) => put(members, name, Some(Json::Number(number))),
        None => put(members, name, None),
    }
}

/// An answer, as it was served. An absent member is one the plan does not
/// have, which is not the same answer as a member that is false.
#[derive(Debug, PartialEq)]
pub struct LookupResponse {
    pub ip: String,
    pub is_vpn: bool,
    pub is_cdn: Option<bool>,
    pub is_dcproxy: Option<bool>,
    pub is_hosting: Option<bool>,
    pub is_mobproxy: Option<bool>,
    pub is_relay: Option<bool>,
    pub is_resproxy: Option<bool>,
    pub is_tor: Option<bool>,
    pub cdn: Option<ClassDetail>,
    pub dcproxy: Option<ProxyDetail>,
    pub hosting: Option<ClassDetail>,
    pub mobproxy: Option<ProxyDetail>,
    pub relay: Option<ClassDetail>,
    pub resproxy: Option<ProxyDetail>,
    pub tor: Option<ClassDetail>,
    pub vpn: Option<VpnDetail>,
}

pub struct AnswerView {
    pub ip: Seq<char>,
    pub is_vpn: bool,
    pub is_cdn: Option<bool>,
    pub is_dcproxy: Option<bool>,
    pub is_hosting: Option<bool>,
    pub is_mobproxy: Option<bool>,
    pub is_relay: Option<bool>,
    pub is_resproxy: Option<bool>,
    pub is_tor: Option<bool>,
    pub cdn: Option<ClassView>,
    pub dcproxy: Option<ProxyView>,
    pub hosting: Option<ClassView>,
    pub mobproxy: Option<ProxyView>,
    pub relay: Option<ClassView>,
    pub resproxy: Option<ProxyView>,
    pub tor: Option<ClassView>,
    pub vpn: Option<VpnView>,
}

impl View for LookupResponse {
    type V = AnswerView;

    open spec fn view(&self) -> AnswerView {
        AnswerView {
            ip: self.ip@,
            is_vpn: self.is_vpn,
            is_cdn: self.is_cdn,
            is_dcproxy: self.is_dcproxy,
            is_hosting: self.is_hosting,
            is_mobproxy: self.is_mobproxy,
            is_relay: self.is_relay,
            is_resproxy: self.is_resproxy,
            is_tor: self.is_tor,
            cdn: class_view(self.cdn),
            dcproxy: proxy_view(self.dcproxy),
            hosting: class_view(self.hosting),
            mobproxy: proxy_view(self.mobproxy),
            relay: class_view(self.relay),
            resproxy: proxy_view(self.resproxy),
            tor: class_view(self.tor),
            vpn: vpn_view(self.vpn),
        }
    }
}

pub open spec fn vpn_view(detail: Option<VpnDetail>) -> Option<VpnView> {
    match detail {
        Some(detail) => Some(detail@),
        None => None,
    }
}

pub open spec fn vpn_wire(detail: Option<VpnView>) -> Option<JsonView> {
    match detail {
        Some(detail) => Some(detail.wire()),
        None => None,
    }
}

fn copy_vpn(detail: &Option<VpnDetail>) -> (r: Option<VpnDetail>)
    ensures
        vpn_view(r) == vpn_view(*detail),
{
    match detail {
        Some(detail) => Some(detail.clone()),
        None => None,
    }
}

pub open spec fn class_view(detail: Option<ClassDetail>) -> Option<ClassView> {
    match detail {
        Some(detail) => Some(detail@),
        None => None,
    }
}

pub open spec fn class_wire(detail: Option<ClassView>) -> Option<JsonView> {
    match detail {
        Some(detail) => Some(detail.wire()),
        None => None,
    }
}

fn copy_class(detail: &Option<ClassDetail>) -> (r: Option<ClassDetail>)
    ensures
        class_view(r) == class_view(*detail),
{
    match detail {
        Some(detail) => Some(detail.clone()),
        None => None,
    }
}

pub open spec fn proxy_view(detail: Option<ProxyDetail>) -> Option<ProxyView> {
    match detail {
        Some(detail) => Some(detail@),
        None => None,
    }
}

pub open spec fn proxy_wire(detail: Option<ProxyView>) -> Option<JsonView> {
    match detail {
        Some(detail) => Some(detail.wire()),
        None => None,
    }
}

fn copy_proxy(detail: &Option<ProxyDetail>) -> (r: Option<ProxyDetail>)
    ensures
        proxy_view(r) == proxy_view(*detail),
{
    match detail {
        Some(detail) => Some(detail.clone()),
        None => None,
    }
}

impl Clone for LookupResponse {
    fn clone(&self) -> (r: Self)
        ensures
            r@ == self@,
    {
        LookupResponse {
            ip: self.ip.clone(),
            is_vpn: self.is_vpn,
            is_cdn: self.is_cdn,
            is_dcproxy: self.is_dcproxy,
            is_hosting: self.is_hosting,
            is_mobproxy: self.is_mobproxy,
            is_relay: self.is_relay,
            is_resproxy: self.is_resproxy,
            is_tor: self.is_tor,
            cdn: copy_class(&self.cdn),
            dcproxy: copy_proxy(&self.dcproxy),
            hosting: copy_class(&self.hosting),
            mobproxy: copy_proxy(&self.mobproxy),
            relay: copy_class(&self.relay),
            resproxy: copy_proxy(&self.resproxy),
            tor: copy_class(&self.tor),
            vpn: copy_vpn(&self.vpn),
        }
    }
}

pub open spec fn flag_wire(flag: Option<bool>) -> Option<JsonView> {
    match flag {
        Some(flag) => Some(JsonView::Bool(flag)),
        None => None,
    }
}

/// The fields that are there, each with its name.
pub open spec fn present(fields: Seq<(Seq<char>, Option<JsonView>)>) -> Seq<(Seq<char>, JsonView)>
    decreases fields.len(),
{
    if fields.len() == 0 {
        Seq::empty()
    } else {
        present(fields.drop_last()) + member(fields.last().0, fields.last().1)
    }
}

impl AnswerView {
    /// The fields of an answer by their wire names, absent ones too.
    pub open spec fn fields(self) -> Seq<(Seq<char>, Option<JsonView>)> {
        seq![
            ("cdn"@, class_wire(self.cdn)),
            ("dcproxy"@, proxy_wire(self.dcproxy)),
            ("hosting"@, class_wire(self.hosting)),
            ("ip"@, Some(JsonView::Text(self.ip))),
            ("is_cdn"@, flag_wire(self.is_cdn)),
            ("is_dcproxy"@, flag_wire(self.is_dcproxy)),
            ("is_hosting"@, flag_wire(self.is_hosting)),
            ("is_mobproxy"@, flag_wire(self.is_mobproxy)),
            ("is_relay"@, flag_wire(self.is_relay)),
            ("is_resproxy"@, flag_wire(self.is_resproxy)),
            ("is_tor"@, flag_wire(self.is_tor)),
            ("is_vpn"@, Some(JsonView::Bool(self.is_vpn))),
            ("mobproxy"@, proxy_wire(self.mobproxy)),
            ("relay"@, class_wire(self.relay)),
            ("resproxy"@, proxy_wire(self.resproxy)),
            ("tor"@, class_wire(self.tor)),
            ("vpn"@, vpn_wire(self.vpn)),
        ]
    }

    /// The answer on the wire, which leaves absent members out.
    pub open spec fn wire(self) -> JsonView {
        JsonView::Object(present(self.fields()))
    }
}

fn vpn_json(detail: &Option<VpnDetail>) -> (r: Option<Json>)
    ensures
        maybe_json(r) == vpn_wire(vpn_view(*detail)),
{
    match detail {
        Some(detail) => Some(detail.wire()),
        None => None,
    }
}

fn class_json(detail: &Option<ClassDetail>) -> (r: Option<Json>)
    ensures
        maybe_json(r) == class_wire(class_view(*detail)),
{
    match detail {
        Some(detail) => Some(detail.wire()),
        None => None,
    }
}

fn proxy_json(detail: &Option<ProxyDetail>) -> (r: Option<Json>)
    ensures
        maybe_json(r) == proxy_wire(proxy_view(*detail)),
{
    match detail {
        Some(detail) => Some(detail.wire()),
        None => None,
    }
}

fn flag_json(flag: Option<bool>) -> (r: Option<Json>)
    ensures
        maybe_json(r) == flag_wire(flag),
{
    match flag {
        Some(flag) => Some(Json::Bool(flag)),
        None => None,
    }
}

fn put_field(
    members: &mut Vec<(String, Json)>,
    name: &str,
    value: Option<Json>,
    Ghost(fields): Ghost<Seq<(Seq<char>, Option<JsonView>)>>,
    Ghost(at): Ghost<int>,
)
    requires
        0 <= at < fields.len(),
        member_views(old(members)@) == present(fields.take(at)),
        fields[at] == (name@, maybe_json(value)),
    ensures
        member_views(final(members)@) == present(fields.take(at + 1)),
{
    assert(fields.take(at + 1).drop_last() =~= fields.take(at));
    put(members, name, value);
}

impl LookupResponse {
    /// The answer on the wire, which leaves absent members out.
    pub fn wire(&self) -> (r: Json)
        ensures
            r@ == self@.wire(),
    {
        let ghost f = self@.fields();
        let mut members: Vec<(String, Json)> = Vec::new();
        assert(f.take(0) =~= Seq::empty());
        put_field(&mut members, "cdn", class_json(&self.cdn), Ghost(f), Ghost(0));
        put_field(&mut members, "dcproxy", proxy_json(&self.dcproxy), Ghost(f), Ghost(1));
        put_field(&mut members, "hosting", class_json(&self.hosting), Ghost(f), Ghost(2));
        put_field(&mut members, "ip", Some(Json::Text(self.ip.clone())), Ghost(f), Ghost(3));
        put_field(&mut members, "is_cdn", flag_json(self.is_cdn), Ghost(f), Ghost(4));
        put_field(&mut members, "is_dcproxy", flag_json(self.is_dcproxy), Ghost(f), Ghost(5));
        put_field(&mut members, "is_hosting", flag_json(self.is_hosting), Ghost(f), Ghost(6));
        put_field(&mut members, "is_mobproxy", flag_json(self.is_mobproxy), Ghost(f), Ghost(7));
        put_field(&mut members, "is_relay", flag_json(self.is_relay), Ghost(f), Ghost(8));
        put_field(&mut members, "is_resproxy", flag_json(self.is_resproxy), Ghost(f), Ghost(9));
        put_field(&mut members, "is_tor", flag_json(self.is_tor), Ghost(f), Ghost(10));
        put_field(&mut members, "is_vpn", Some(Json::Bool(self.is_vpn)), Ghost(f), Ghost(11));
        put_field(&mut members, "mobproxy", proxy_json(&self.mobproxy), Ghost(f), Ghost(12));
        put_field(&mut members, "relay", class_json(&self.relay), Ghost(f), Ghost(13));
        put_field(&mut members, "resproxy", proxy_json(&self.resproxy), Ghost(f), Ghost(14));
        put_field(&mut members, "tor", class_json(&self.tor), Ghost(f), Ghost(15));
        put_field(&mut members, "vpn", vpn_json(&self.vpn), Ghost(f), Ghost(16));
        assert(f.take(17) =~= f);
        Json::Object(members)
    }
}

/// What a lookup answers.
#[derive(Debug, PartialEq)]
pub struct Lookup {
    /// True when this answer was computed locally rather than served, which
    /// happens for a bogon and only for a bogon.
    pub is_bogon: bool,
    /// The answer as it was served, with the wire's own optionality intact.
    pub answer: LookupResponse,
}

pub struct LookupView {
    pub is_bogon: bool,
    pub answer: AnswerView,
}

impl View for Lookup {
    type V = LookupView;

    open spec fn view(&self) -> LookupView {
        LookupView { is_bogon: self.is_bogon, answer: self.answer@ }
    }
}

impl Clone for Lookup {
    fn clone(&self) -> (r: Self)
        ensures
            r@ == self@,
    {
        Lookup { is_bogon: self.is_bogon, answer: self.answer.clone() }
    }
}

/// The answer's fields are reachable straight off a lookup, so `result.is_vpn`
/// reads as if it were its own.
impl core::ops::Deref for Lookup {
    type Target = LookupResponse;

    fn deref(&self) -> (r: &LookupResponse)
        ensures
            *r == self.answer,
    {
        &self.answer
    }
}

/// A flag that treats "not in the plan" as false.
pub open spec fn or_false(flag: Option<bool>) -> bool {
    flag == Some(true)
}

impl Lookup {
    /// An answer the API served.
    pub fn served(answer: LookupResponse) -> (r: Self)
        ensures
            r@ == (LookupView { is_bogon: false, answer: answer@ }),
    {
        Lookup { is_bogon: false, answer }
    }

    pub fn is_hosting_or_false(&self) -> (r: bool)
        ensures
            r == or_false(self@.answer.is_hosting),
    {
        match self.answer.is_hosting {
            Some(flag) => flag,
            None => false,
        }
    }

    pub fn is_relay_or_false(&self) -> (r: bool)
        ensures
            r == or_false(self@.answer.is_relay),
    {
        match self.answer.is_relay {
            Some(flag) => flag,
            None => false,
        }
    }

    pub fn is_tor_or_false(&self) -> (r: bool)
        ensures
            r == or_false(self@.answer.is_tor),
    {
        match self.answer.is_tor {
            Some(flag) => flag,
            None => false,
        }
    }

    pub fn is_cdn_or_false(&self) -> (r: bool)
        ensures
            r == or_false(self@.answer.is_cdn),
    {
        match self.answer.is_cdn {
            Some(flag) => flag,
            None => false,
        }
    }

    pub fn is_resproxy_or_false(&self) -> (r: bool)
        ensures
            r == or_false(self@.answer.is_resproxy),
    {
        match self.answer.is_resproxy {
            Some(flag) => flag,
            None => false,
        }
    }

    pub fn is_dcproxy_or_false(&self) -> (r: bool)
        ensures
            r == or_false(self@.answer.is_dcproxy),
    {
        match self.answer.is_dcproxy {
            Some(flag) => flag,
            None => false,
        }
    }

    pub fn is_mobproxy_or_false(&self) -> (r: bool)
        ensures
            r == or_false(self@.answer.is_mobproxy),
    {
        match self.answer.is_mobproxy {
            Some(flag) => flag,
            None => false,
        }
    }
}

proof fn member_of_both(a: Seq<(Seq<char>, JsonView)>, b: Seq<(Seq<char>, JsonView)>, name: Seq<char>)
    ensures
        member_of(a + b, name) == (if member_of(a, name) is Some {
            member_of(a, name)
        } else {
            member_of(b, name)
        }),
    decreases a.len(),
{
    if a.len() == 0 {
        assert(a + b =~= b);
    } else {
        member_of_both(a.skip(1), b, name);
        assert((a + b).skip(1) =~= a.skip(1) + b);
    }
}

proof fn member_alone(name: Seq<char>, value: Option<JsonView>, other: Seq<char>)
    ensures
        member_of(member(name, value), other) == (if name == other {
            value
        } else {
            None
        }),
{
    reveal_with_fuel(member_of, 2);
}

/// Among fields with different names, the object has for each name the value of
/// its field, and nothing under any other name.
proof fn present_fields(fields: Seq<(Seq<char>, Option<JsonView>)>, name: Seq<char>)
    requires
        forall|i: int, j: int|
            0 <= i < j < fields.len() ==> (#[trigger] fields[i]).0 != (#[trigger] fields[j]).0,
    ensures
        forall|i: int|
            0 <= i < fields.len() && (#[trigger] fields[i]).0 == name ==> member_of(
                present(fields),
                name,
            ) == fields[i].1,
        (forall|i: int| 0 <= i < fields.len() ==> (#[trigger] fields[i]).0 != name) ==> member_of(
            present(fields),
            name,
        ) is None,
    decreases fields.len(),
{
    if fields.len() > 0 {
        let before = fields.drop_last();
        let last = fields.last();
        assert forall|i: int, j: int| 0 <= i < j < before.len() implies (#[trigger] before[i]).0 != (
        #[trigger] before[j]).0 by {
            assert(fields[i].0 != fields[j].0);
        }
        present_fields(before, name);
        member_of_both(present(before), member(last.0, last.1), name);
        member_alone(last.0, last.1, name);
        if last.0 == name {
            assert forall|i: int| 0 <= i < before.len() implies (#[trigger] before[i]).0 != name by {
                assert(fields[i].0 != fields[fields.len() - 1].0);
            }
        } else {
            assert forall|i: int| 0 <= i < fields.len() && (#[trigger] fields[i]).0 == name implies
                member_of(present(fields), name) == fields[i].1 by {
                assert(before[i].0 == name);
            }
            if forall|i: int| 0 <= i < fields.len() ==> (#[trigger] fields[i]).0 != name {
                assert forall|i: int| 0 <= i < before.len() implies (#[trigger] before[i]).0
                    != name by {
                    assert(fields[i].0 != name);
                }
            }
        }
    }
}

/// A number that tells the field names apart.
spec fn name_key(name: Seq<char>) -> int {
    let size = name.len() as int;
    size * 0x100_0000 + name[0] as int * 0x1_0000 + name[size - 1] as int * 0x100 + (if size > 5 {
        name[size - 6] as int
    } else {
        0
    }) + (if size > 2 {
        name[size - 3] as int
    } else {
        0
    })
}

proof fn field_names_differ(answer: AnswerView)
    ensures
        answer.fields().len() == 17,
        forall|i: int, j: int|
            0 <= i < j < 17 ==> (#[trigger] answer.fields()[i]).0 != (
            #[trigger] answer.fields()[j]).0,
{
    let keys: Seq<int> = seq![56847971, 124025298, 124282840, 40464384, 107572940, 174684626, 174680024, 191461841, 141130187, 191461858, 107573981, 107572959, 141392337, 91388268, 141720034, 57963124, 58093174];
    let f = answer.fields();
    assert forall|i: int| 0 <= i < 17 implies name_key((#[trigger] f[i]).0) == keys[i] by {
        reveal_strlit("cdn");
        reveal_strlit("dcproxy");
        reveal_strlit("hosting");
        reveal_strlit("ip");
        reveal_strlit("is_cdn");
        reveal_strlit("is_dcproxy");
        reveal_strlit("is_hosting");
        reveal_strlit("is_mobproxy");
        reveal_strlit("is_relay");
        reveal_strlit("is_resproxy");
        reveal_strlit("is_tor");
        reveal_strlit("is_vpn");
        reveal_strlit("mobproxy");
        reveal_strlit("relay");
        reveal_strlit("resproxy");
        reveal_strlit("tor");
        reveal_strlit("vpn");
    }
    assert forall|i: int, j: int| 0 <= i < j < 17 implies (#[trigger] f[i]).0 != (
    #[trigger] f[j]).0 by {
        assert(keys[i] != keys[j]);
    }
}

/// A member is on the wire exactly when it is in the answer, with the value it
/// has there: absent is not false.
pub proof fn law_the_wire_has_what_the_answer_has(answer: AnswerView, i: int)
    requires
        0 <= i < answer.fields().len(),
    ensures
        answer.wire().member(answer.fields()[i].0) == answer.fields()[i].1,
{
    field_names_differ(answer);
    present_fields(answer.fields(), answer.fields()[i].0);
}

/// Nothing is on the wire under a name that no field of an answer has.
pub proof fn law_the_wire_has_nothing_else(answer: AnswerView, name: Seq<char>)
    requires
        forall|i: int| 0 <= i < answer.fields().len() ==> (#[trigger] answer.fields()[i]).0 != name,
    ensures
        answer.wire().member(name) is None,
{
    field_names_differ(answer);
    present_fields(answer.fields(), name);
}

/// An answer has on the wire, under the name of each of its fields, that field
/// and no other: its address and its VPN flag always, and any other flag or detail
/// exactly when the answer has it, with the value it has there. Absent is not false.
pub proof fn law_each_member_is_its_own_field(answer: LookupResponse)
    ensures
        answer@.wire().member("ip"@) == Some(JsonView::Text(answer.ip@)),
        answer@.wire().member("is_vpn"@) == Some(JsonView::Bool(answer.is_vpn)),
        answer@.wire().member("is_cdn"@) == (match answer.is_cdn {
            Some(flag) => Some(JsonView::Bool(flag)),
            None => None,
        }),
        answer@.wire().member("is_dcproxy"@) == (match answer.is_dcproxy {
            Some(flag) => Some(JsonView::Bool(flag)),
            None => None,
        }),
        answer@.wire().member("is_hosting"@) == (match answer.is_hosting {
            Some(flag) => Some(JsonView::Bool(flag)),
            None => None,
        }),
        answer@.wire().member("is_mobproxy"@) == (match answer.is_mobproxy {
            Some(flag) => Some(JsonView::Bool(flag)),
            None => None,
        }),
        answer@.wire().member("is_relay"@) == (match answer.is_relay {
            Some(flag) => Some(JsonView::Bool(flag)),
            None => None,
        }),
        answer@.wire().member("is_resproxy"@) == (match answer.is_resproxy {
            Some(flag) => Some(JsonView::Bool(flag)),
            None => None,
        }),
        answer@.wire().member("is_tor"@) == (match answer.is_tor {
            Some(flag) => Some(JsonView::Bool(flag)),
            None => None,
        }),
        answer@.wire().member("cdn"@) == (match answer.cdn {
            Some(detail) => Some(detail@.wire()),
            None => None,
        }),
        answer@.wire().member("hosting"@) == (match answer.hosting {
            Some(detail) => Some(detail@.wire()),
            None => None,
        }),
        answer@.wire().member("relay"@) == (match answer.relay {
            Some(detail) => Some(detail@.wire()),
            None => None,
        }),
        answer@.wire().member("tor"@) == (match answer.tor {
            Some(detail) => Some(detail@.wire()),
            None => None,
        }),
        answer@.wire().member("dcproxy"@) == (match answer.dcproxy {
            Some(detail) => Some(detail@.wire()),
            None => None,
        }),
        answer@.wire().member("mobproxy"@) == (match answer.mobproxy {
            Some(detail) => Some(detail@.wire()),
            None => None,
        }),
        answer@.wire().member("resproxy"@) == (match answer.resproxy {
            Some(detail) => Some(detail@.wire()),
            None => None,
        }),
        answer@.wire().member("vpn"@) == (match answer.vpn {
            Some(detail) => Some(detail@.wire()),
            None => None,
        }),
{
    let view = answer@;
    law_the_wire_has_what_the_answer_has(view, 0);
    assert(view.fields()[0].0 == "cdn"@);
    law_the_wire_has_what_the_answer_has(view, 1);
    assert(view.fields()[1].0 == "dcproxy"@);
    law_the_wire_has_what_the_answer_has(view, 2);
    assert(view.fields()[2].0 == "hosting"@);
    law_the_wire_has_what_the_answer_has(view, 3);
    assert(view.fields()[3].0 == "ip"@);
    law_the_wire_has_what_the_answer_has(view, 4);
    assert(view.fields()[4].0 == "is_cdn"@);
    law_the_wire_has_what_the_answer_has(view, 5);
    assert(view.fields()[5].0 == "is_dcproxy"@);
    law_the_wire_has_what_the_answer_has(view, 6);
    assert(view.fields()[6].0 == "is_hosting"@);
    law_the_wire_has_what_the_answer_has(view, 7);
    assert(view.fields()[7].0 == "is_mobproxy"@);
    law_the_wire_has_what_the_answer_has(view, 8);
    assert(view.fields()[8].0 == "is_relay"@);
    law_the_wire_has_what_the_answer_has(view, 9);
    assert(view.fields()[9].0 == "is_resproxy"@);
    law_the_wire_has_what_the_answer_has(view, 10);
    assert(view.fields()[10].0 == "is_tor"@);
    law_the_wire_has_what_the_answer_has(view, 11);
    assert(view.fields()[11].0 == "is_vpn"@);
    law_the_wire_has_what_the_answer_has(view, 12);
    assert(view.fields()[12].0 == "mobproxy"@);
    law_the_wire_has_what_the_answer_has(view, 13);
    assert(view.fields()[13].0 == "relay"@);
    law_the_wire_has_what_the_answer_has(view, 14);
    assert(view.fields()[14].0 == "resproxy"@);
    law_the_wire_has_what_the_answer_has(view, 15);
    assert(view.fields()[15].0 == "tor"@);
    law_the_wire_has_what_the_answer_has(view, 16);
    assert(view.fields()[16].0 == "vpn"@);
}

/// An answer has nothing on the wire under any name but the seventeen.
pub proof fn law_an_answer_has_no_other_member(answer: LookupResponse, name: Seq<char>)
    requires
        name != "cdn"@,
        name != "dcproxy"@,
        name != "hosting"@,
        name != "ip"@,
        name != "is_cdn"@,
        name != "is_dcproxy"@,
        name != "is_hosting"@,
        name != "is_mobproxy"@,
        name != "is_relay"@,
        name != "is_resproxy"@,
        name != "is_tor"@,
        name != "is_vpn"@,
        name != "mobproxy"@,
        name != "relay"@,
        name != "resproxy"@,
        name != "tor"@,
        name != "vpn"@,
    ensures
        answer@.wire().member(name) is None,
{
    field_names_differ(answer@);
    law_the_wire_has_nothing_else(answer@, name);
}

/// What the detail behind the VPN flag has on the wire: each of its texts and numbers
/// under its own name, exactly when it has it, and nothing else.
pub proof fn law_a_vpn_detail_has_its_own_members(detail: VpnDetail, name: Seq<char>)
    ensures
        detail@.wire().member("confidence"@) == (match detail.confidence {
            Some(text) => Some(JsonView::Text(text@)),
            None => None,
        }),
        detail@.wire().member("last_seen"@) == (match detail.last_seen {
            Some(text) => Some(JsonView::Text(text@)),
            None => None,
        }),
        detail@.wire().member("method"@) == (match detail.method {
            Some(text) => Some(JsonView::Text(text@)),
            None => None,
        }),
        detail@.wire().member("provider"@) == (match detail.provider {
            Some(text) => Some(JsonView::Text(text@)),
            None => None,
        }),
        name != "confidence"@
            && name != "last_seen"@
            && name != "method"@
            && name != "provider"@ ==> detail@.wire().member(name) is None,
{
    reveal_strlit("confidence");
    reveal_strlit("last_seen");
    reveal_strlit("method");
    reveal_strlit("provider");
    let fields: Seq<(Seq<char>, Option<JsonView>)> = seq![
        ("confidence"@, match detail.confidence {
            Some(text) => Some(JsonView::Text(text@)),
            None => None,
        }),
        ("last_seen"@, match detail.last_seen {
            Some(text) => Some(JsonView::Text(text@)),
            None => None,
        }),
        ("method"@, match detail.method {
            Some(text) => Some(JsonView::Text(text@)),
            None => None,
        }),
        ("provider"@, match detail.provider {
            Some(text) => Some(JsonView::Text(text@)),
            None => None,
        }),
    ];
    reveal_with_fuel(present, 5);
    assert(fields.take(4).drop_last() =~= fields.take(3));
    assert(fields.take(3).drop_last() =~= fields.take(2));
    assert(fields.take(2).drop_last() =~= fields.take(1));
    assert(fields.take(1).drop_last() =~= fields.take(0));
    assert(fields.take(4) =~= fields);
    assert(fields.take(0) =~= Seq::empty());
    assert(detail@.wire() == JsonView::Object(present(fields))) by {
        match detail@.wire() {
            JsonView::Object(members) => {
                assert(members =~= present(fields));
            },
            _ => {},
        }
    }
    assert forall|i: int, j: int| 0 <= i < j < fields.len() implies (#[trigger] fields[i]).0 != (
    #[trigger] fields[j]).0 by {
        assert(fields[i].0.len() != fields[j].0.len() || fields[i].0[0] != fields[j].0[0]);
    }
    present_fields(fields, "confidence"@);
    assert(fields[0].0 == "confidence"@);
    present_fields(fields, "last_seen"@);
    assert(fields[1].0 == "last_seen"@);
    present_fields(fields, "method"@);
    assert(fields[2].0 == "method"@);
    present_fields(fields, "provider"@);
    assert(fields[3].0 == "provider"@);
    present_fields(fields, name);
}

/// What the detail behind a flag that names one kind of network has on the wire: each of its texts and numbers
/// under its own name, exactly when it has it, and nothing else.
pub proof fn law_a_class_detail_has_its_own_members(detail: ClassDetail, name: Seq<char>)
    ensures
        detail@.wire().member("confidence"@) == (match detail.confidence {
            Some(text) => Some(JsonView::Text(text@)),
            None => None,
        }),
        detail@.wire().member("last_seen"@) == (match detail.last_seen {
            Some(text) => Some(JsonView::Text(text@)),
            None => None,
        }),
        detail@.wire().member("provider"@) == (match detail.provider {
            Some(text) => Some(JsonView::Text(text@)),
            None => None,
        }),
        name != "confidence"@
            && name != "last_seen"@
            && name != "provider"@ ==> detail@.wire().member(name) is None,
{
    reveal_strlit("confidence");
    reveal_strlit("last_seen");
    reveal_strlit("provider");
    let fields: Seq<(Seq<char>, Option<JsonView>)> = seq![
        ("confidence"@, match detail.confidence {
            Some(text) => Some(JsonView::Text(text@)),
            None => None,
        }),
        ("last_seen"@, match detail.last_seen {
            Some(text) => Some(JsonView::Text(text@)),
            None => None,
        }),
        ("provider"@, match detail.provider {
            Some(text) => Some(JsonView::Text(text@)),
            None => None,
        }),
    ];
    reveal_with_fuel(present, 4);
    assert(fields.take(3).drop_last() =~= fields.take(2));
    assert(fields.take(2).drop_last() =~= fields.take(1));
    assert(fields.take(1).drop_last() =~= fields.take(0));
    assert(fields.take(3) =~= fields);
    assert(fields.take(0) =~= Seq::empty());
    assert(detail@.wire() == JsonView::Object(present(fields))) by {
        match detail@.wire() {
            JsonView::Object(members) => {
                assert(members =~= present(fields));
            },
            _ => {},
        }
    }
    assert forall|i: int, j: int| 0 <= i < j < fields.len() implies (#[trigger] fields[i]).0 != (
    #[trigger] fields[j]).0 by {
        assert(fields[i].0.len() != fields[j].0.len() || fields[i].0[0] != fields[j].0[0]);
    }
    present_fields(fields, "confidence"@);
    assert(fields[0].0 == "confidence"@);
    present_fields(fields, "last_seen"@);
    assert(fields[1].0 == "last_seen"@);
    present_fields(fields, "provider"@);
    assert(fields[2].0 == "provider"@);
    present_fields(fields, name);
}

/// What the detail behind a proxy flag has on the wire: each of its texts and numbers
/// under its own name, exactly when it has it, and nothing else.
pub proof fn law_a_proxy_detail_has_its_own_members(detail: ProxyDetail, name: Seq<char>)
    ensures
        detail@.wire().member("first_seen"@) == (match detail.first_seen {
            Some(text) => Some(JsonView::Text(text@)),
            None => None,
        }),
        detail@.wire().member("hits"@) == (match detail.hits {
            Some(n) => Some(
                JsonView::Number { text: signed_text(n as int), value: Some(integer(n as int)) },
            ),
            None => None,
        }),
        detail@.wire().member("hits_days_pct"@) == (match detail.hits_days_pct {
            Some(n) => Some(JsonView::Number { text: n.text@, value: n.value }),
            None => None,
        }),
        detail@.wire().member("last_seen"@) == (match detail.last_seen {
            Some(text) => Some(JsonView::Text(text@)),
            None => None,
        }),
        detail@.wire().member("provider"@) == (match detail.provider {
            Some(text) => Some(JsonView::Text(text@)),
            None => None,
        }),
        detail@.wire().member("providers_num"@) == (match detail.providers_num {
            Some(n) => Some(
                JsonView::Number { text: signed_text(n as int), value: Some(integer(n as int)) },
            ),
            None => None,
        }),
        name != "first_seen"@
            && name != "hits"@
            && name != "hits_days_pct"@
            && name != "last_seen"@
            && name != "provider"@
            && name != "providers_num"@ ==> detail@.wire().member(name) is None,
{
    reveal_strlit("first_seen");
    reveal_strlit("hits");
    reveal_strlit("hits_days_pct");
    reveal_strlit("last_seen");
    reveal_strlit("provider");
    reveal_strlit("providers_num");
    let fields: Seq<(Seq<char>, Option<JsonView>)> = seq![
        ("first_seen"@, match detail.first_seen {
            Some(text) => Some(JsonView::Text(text@)),
            None => None,
        }),
        ("hits"@, match detail.hits {
            Some(n) => Some(
                JsonView::Number { text: signed_text(n as int), value: Some(integer(n as int)) },
            ),
            None => None,
        }),
        ("hits_days_pct"@, match detail.hits_days_pct {
            Some(n) => Some(JsonView::Number { text: n.text@, value: n.value }),
            None => None,
        }),
        ("last_seen"@, match detail.last_seen {
            Some(text) => Some(JsonView::Text(text@)),
            None => None,
        }),
        ("provider"@, match detail.provider {
            Some(text) => Some(JsonView::Text(text@)),
            None => None,
        }),
        ("providers_num"@, match detail.providers_num {
            Some(n) => Some(
                JsonView::Number { text: signed_text(n as int), value: Some(integer(n as int)) },
            ),
            None => None,
        }),
    ];
    reveal_with_fuel(present, 7);
    assert(fields.take(6).drop_last() =~= fields.take(5));
    assert(fields.take(5).drop_last() =~= fields.take(4));
    assert(fields.take(4).drop_last() =~= fields.take(3));
    assert(fields.take(3).drop_last() =~= fields.take(2));
    assert(fields.take(2).drop_last() =~= fields.take(1));
    assert(fields.take(1).drop_last() =~= fields.take(0));
    assert(fields.take(6) =~= fields);
    assert(fields.take(0) =~= Seq::empty());
    assert(detail@.wire() == JsonView::Object(present(fields))) by {
        match detail@.wire() {
            JsonView::Object(members) => {
                assert(members =~= present(fields));
            },
            _ => {},
        }
    }
    assert forall|i: int, j: int| 0 <= i < j < fields.len() implies (#[trigger] fields[i]).0 != (
    #[trigger] fields[j]).0 by {
        assert(fields[i].0.len() != fields[j].0.len() || fields[i].0[0] != fields[j].0[0]);
    }
    present_fields(fields, "first_seen"@);
    assert(fields[0].0 == "first_seen"@);
    present_fields(fields, "hits"@);
    assert(fields[1].0 == "hits"@);
    present_fields(fields, "hits_days_pct"@);
    assert(fields[2].0 == "hits_days_pct"@);
    present_fields(fields, "last_seen"@);
    assert(fields[3].0 == "last_seen"@);
    present_fields(fields, "provider"@);
    assert(fields[4].0 == "provider"@);
    present_fields(fields, "providers_num"@);
    assert(fields[5].0 == "providers_num"@);
    present_fields(fields, name);
}

/// A flag that is absent reads as false, and one that is there as it is.
pub proof fn law_an_absent_flag_reads_as_false(flag: bool)
    ensures
        or_false(Some(flag)) == flag,
        !or_false(None),
{
}

/// An answer reads as the fields it has, each as its own, and a lookup as its
/// answer and whether that was computed.
pub proof fn law_an_answer_reads_as_its_fields(lookup: Lookup)
    ensures
        lookup@.is_bogon == lookup.is_bogon,
        lookup@.answer.ip == lookup.answer.ip@,
        lookup@.answer.is_vpn == lookup.answer.is_vpn,
        lookup@.answer.is_cdn == lookup.answer.is_cdn,
        lookup@.answer.is_dcproxy == lookup.answer.is_dcproxy,
        lookup@.answer.is_hosting == lookup.answer.is_hosting,
        lookup@.answer.is_mobproxy == lookup.answer.is_mobproxy,
        lookup@.answer.is_relay == lookup.answer.is_relay,
        lookup@.answer.is_resproxy == lookup.answer.is_resproxy,
        lookup@.answer.is_tor == lookup.answer.is_tor,
        lookup@.answer.cdn == (match lookup.answer.cdn {
            Some(detail) => Some(detail@),
            None => None,
        }),
        lookup@.answer.hosting == (match lookup.answer.hosting {
            Some(detail) => Some(detail@),
            None => None,
        }),
        lookup@.answer.relay == (match lookup.answer.relay {
            Some(detail) => Some(detail@),
            None => None,
        }),
        lookup@.answer.tor == (match lookup.answer.tor {
            Some(detail) => Some(detail@),
            None => None,
        }),
        lookup@.answer.dcproxy == (match lookup.answer.dcproxy {
            Some(detail) => Some(detail@),
            None => None,
        }),
        lookup@.answer.mobproxy == (match lookup.answer.mobproxy {
            Some(detail) => Some(detail@),
            None => None,
        }),
        lookup@.answer.resproxy == (match lookup.answer.resproxy {
            Some(detail) => Some(detail@),
            None => None,
        }),
        lookup@.answer.vpn == (match lookup.answer.vpn {
            Some(detail) => Some(detail@),
            None => None,
        }),
{
}

}
