//! What runs against a deployment share: which plan tiers a run can observe, and
//! the shape rules that hold whatever the plan.

pub mod recorder;

use vstd::prelude::*;

use crate::client::{Client, ClientBuilder};
use crate::integration::recorder::Fact;
use crate::json::{member_of, member_views, member_views_are, render, rendered};
use crate::json::{Json, JsonView};
use crate::lookup::{present, Lookup};
use crate::text::{concat, maybe_text, same, texts, texts_push, trim, trimmed};

verus! {

/// The deployment that is run against.
pub const STAGING: &'static str = "https://api-staging.vpndetection.io";

/// A stable VPN address.
pub const PROBE: &'static str = "45.83.91.1";

/// How many plan tiers there are.
pub const RUNG_COUNT: usize = 5;

/// The variables a run was started with.
#[derive(Debug)]
pub struct Environment {
    pub variables: Vec<(String, String)>,
}

/// The value a variable has, when it is set.
pub open spec fn variable(variables: Seq<(String, String)>, name: Seq<char>) -> Option<Seq<char>>
    decreases variables.len(),
{
    if variables.len() == 0 {
        None
    } else if variables[0].0@ == name {
        Some(variables[0].1@)
    } else {
        variable(variables.skip(1), name)
    }
}

impl Environment {
    /// The value a variable has, when it is set.
    pub fn var(&self, name: &str) -> (r: Option<String>)
        ensures
            maybe_text(r) == variable(self.variables@, name@),
    {
        assert(self.variables@.skip(0) =~= self.variables@);
        for i in 0..self.variables.len()
            invariant
                variable(self.variables@, name@) == variable(
                    self.variables@.skip(i as int),
                    name@,
                ),
        {
            assert(self.variables@.skip(i as int).skip(1) =~= self.variables@.skip(i + 1));
            if same(self.variables[i].0.as_str(), name) {
                return Some(self.variables[i].1.clone());
            }
        }
        None
    }
}

/// One plan tier. `widens` is what it promises against whichever observable tier
/// sits below it: a paid tier serves strictly more, while a free key and no key
/// are the same entitlement reached two ways.
#[derive(Clone, Copy, Debug)]
pub struct Rung {
    pub tier: &'static str,
    pub secret: Option<&'static str>,
    pub widens: bool,
}

pub struct RungView {
    pub tier: Seq<char>,
    pub secret: Option<Seq<char>>,
    pub widens: bool,
}

impl View for Rung {
    type V = RungView;

    open spec fn view(&self) -> RungView {
        RungView {
            tier: self.tier@,
            secret: match self.secret {
                Some(name) => Some(name@),
                None => None,
            },
            widens: self.widens,
        }
    }
}

/// The plan tiers, ascending.
pub open spec fn ladder() -> Seq<RungView> {
    seq![
        RungView { tier: "unauth"@, secret: None, widens: false },
        RungView {
            tier: "free"@,
            secret: Some("VPNDETECTION_STAGING_KEY_FREE"@),
            widens: false,
        },
        RungView {
            tier: "starter"@,
            secret: Some("VPNDETECTION_STAGING_KEY_STARTER"@),
            widens: true,
        },
        RungView {
            tier: "scale"@,
            secret: Some("VPNDETECTION_STAGING_KEY_SCALE"@),
            widens: true,
        },
        RungView { tier: "max"@, secret: Some("VPNDETECTION_STAGING_KEY_MAX"@), widens: true },
    ]
}

pub open spec fn rung_views(rungs: Seq<Rung>) -> Seq<RungView> {
    rungs.map_values(|rung: Rung| rung@)
}

/// The plan tiers, ascending.
pub fn rungs() -> (r: [Rung; 5])
    ensures
        rung_views(r@) == ladder(),
{
    let r = [
        Rung { tier: "unauth", secret: None, widens: false },
        Rung { tier: "free", secret: Some("VPNDETECTION_STAGING_KEY_FREE"), widens: false },
        Rung { tier: "starter", secret: Some("VPNDETECTION_STAGING_KEY_STARTER"), widens: true },
        Rung { tier: "scale", secret: Some("VPNDETECTION_STAGING_KEY_SCALE"), widens: true },
        Rung { tier: "max", secret: Some("VPNDETECTION_STAGING_KEY_MAX"), widens: true },
    ];
    assert(rung_views(r@) =~= ladder());
    r
}

impl RungView {
    /// This tier's key, or that it cannot be exercised. A blank one counts as
    /// absent: a client with an empty key sends none, and would run as a second
    /// unauthenticated client.
    pub open spec fn key(self, variables: Seq<(String, String)>) -> Option<Seq<char>> {
        match self.secret {
            Some(name) => match variable(variables, name) {
                Some(value) => if trimmed(value).len() > 0 {
                    Some(trimmed(value))
                } else {
                    None
                },
                None => None,
            },
            None => None,
        }
    }

    /// Why this tier cannot be exercised.
    pub open spec fn skip_reason(self, variables: Seq<(String, String)>) -> Option<Seq<char>> {
        match self.secret {
            Some(name) => if self.key(variables) is None {
                Some(
                    name + " is not set, so the "@ + self.tier + " tier cannot be exercised"@,
                )
            } else {
                None
            },
            None => None,
        }
    }
}

impl Rung {
    /// This tier's key, or `None` when it cannot be exercised.
    pub fn key(&self, env: &Environment) -> (r: Option<String>)
        ensures
            maybe_text(r) == self@.key(env.variables@),
    {
        match self.secret {
            Some(name) => match env.var(name) {
                Some(value) => {
                    let key = trim(value.as_str());
                    if key.as_str().is_empty() {
                        None
                    } else {
                        Some(key)
                    }
                },
                None => None,
            },
            None => None,
        }
    }

    /// A reason, or `None` when this tier can be exercised.
    pub fn skip_reason(&self, env: &Environment) -> (r: Option<String>)
        ensures
            maybe_text(r) == self@.skip_reason(env.variables@),
    {
        match self.secret {
            Some(name) => {
                if self.key(env).is_some() {
                    return None;
                }
                let mut reason = concat(name, " is not set, so the ");
                reason.append(self.tier);
                reason.append(" tier cannot be exercised");
                Some(reason)
            },
            None => None,
        }
    }
}

/// The tiers of a ladder that a run can observe.
pub open spec fn observable_of(
    rungs: Seq<RungView>,
    variables: Seq<(String, String)>,
) -> Seq<RungView>
    decreases rungs.len(),
{
    if rungs.len() == 0 {
        Seq::empty()
    } else if rungs.last().skip_reason(variables) is None {
        observable_of(rungs.drop_last(), variables).push(rungs.last())
    } else {
        observable_of(rungs.drop_last(), variables)
    }
}

/// The tiers a run can actually observe, in ascending order.
pub fn observable(env: &Environment) -> (r: Vec<Rung>)
    ensures
        rung_views(r@) == observable_of(ladder(), env.variables@),
{
    let all = rungs();
    let ghost views = ladder();
    let mut r: Vec<Rung> = Vec::new();
    assert(rung_views(r@) =~= Seq::empty());
    for i in 0..RUNG_COUNT
        invariant
            views == rung_views(all@),
            views.len() == RUNG_COUNT,
            rung_views(r@) == observable_of(views.take(i as int), env.variables@),
    {
        assert(views.take(i + 1).drop_last() =~= views.take(i as int));
        assert(views[i as int] == all@[i as int]@);
        let rung = all[i];
        if rung.skip_reason(env).is_none() {
            let ghost before = r@;
            r.push(rung);
            assert(rung_views(r@) =~= rung_views(before).push(rung@));
        }
    }
    assert(views.take(RUNG_COUNT as int) =~= views);
    r
}

/// Why there is no ladder to compare. It needs two tiers to say anything, and the
/// unauthenticated one is always there.
pub fn ladder_skip(env: &Environment) -> (r: Option<String>)
    ensures
        maybe_text(r) == (if observable_of(ladder(), env.variables@).len() <= 1 {
            Some("no tier secret is set, so there is no ladder to compare"@)
        } else {
            None
        }),
{
    let seen = observable(env);
    assert(rung_views(seen@).len() == seen@.len());
    if seen.len() <= 1 {
        Some("no tier secret is set, so there is no ladder to compare".to_owned())
    } else {
        None
    }
}

/// The widest tier.
pub fn max_rung() -> (r: Rung)
    ensures
        r@ == ladder()[RUNG_COUNT - 1],
{
    let all = rungs();
    assert(rung_views(all@)[RUNG_COUNT - 1] == all@[RUNG_COUNT - 1]@);
    all[RUNG_COUNT - 1]
}

/// The ladder is skipped exactly when no tier has a key.
pub proof fn law_a_ladder_needs_one_key(variables: Seq<(String, String)>)
    ensures
        (observable_of(ladder(), variables).len() <= 1) == (forall|i: int|
            0 <= i < ladder().len() ==> (#[trigger] ladder()[i]).key(variables) is None),
{
    let all = ladder();
    assert(all.drop_last() =~= all.take(4));
    assert(all.take(4).drop_last() =~= all.take(3));
    assert(all.take(3).drop_last() =~= all.take(2));
    assert(all.take(2).drop_last() =~= all.take(1));
    assert(all.take(1).drop_last() =~= all.take(0));
    assert(observable_of(all.take(0), variables) =~= Seq::empty());
    assert(all.take(1).last() == all[0]);
    assert(all.take(2).last() == all[1]);
    assert(all.take(3).last() == all[2]);
    assert(all.take(4).last() == all[3]);
    assert(all.last() == all[4]);
    assert(observable_of(all.take(1), variables).len() == 1);
    let counted = |i: int|
        if all[i].key(variables) is None {
            0int
        } else {
            1int
        };
    assert(observable_of(all.take(2), variables).len() == 1 + counted(1));
    assert(observable_of(all.take(3), variables).len() == 1 + counted(1) + counted(2));
    assert(observable_of(all.take(4), variables).len() == 1 + counted(1) + counted(2) + counted(3));
    assert(observable_of(all, variables).len() == 1 + counted(1) + counted(2) + counted(3)
        + counted(4));
    if observable_of(all, variables).len() <= 1 {
        assert forall|i: int| 0 <= i < all.len() implies (#[trigger] all[i]).key(
            variables,
        ) is None by {
            assert(counted(1) == 0 && counted(2) == 0 && counted(3) == 0 && counted(4) == 0);
        }
    }
}

/// What a populated detail object has: `required` on every tier that serves it,
/// `optional` on the widest only.
#[derive(Debug)]
pub struct Detail {
    pub required: Vec<&'static str>,
    pub optional: Vec<&'static str>,
}

pub struct DetailKeys {
    pub required: Seq<Seq<char>>,
    pub optional: Seq<Seq<char>>,
}

pub open spec fn key_texts(keys: Seq<&'static str>) -> Seq<Seq<char>> {
    keys.map_values(|key: &'static str| key@)
}

impl View for Detail {
    type V = DetailKeys;

    open spec fn view(&self) -> DetailKeys {
        DetailKeys { required: key_texts(self.required@), optional: key_texts(self.optional@) }
    }
}

pub open spec fn class_keys() -> DetailKeys {
    DetailKeys {
        required: seq!["provider"@, "confidence"@, "last_seen"@],
        optional: Seq::empty(),
    }
}

pub open spec fn proxy_keys() -> DetailKeys {
    DetailKeys {
        required: seq![
            "provider"@,
            "first_seen"@,
            "last_seen"@,
            "hits"@,
            "hits_days_pct"@,
            "providers_num"@,
        ],
        optional: Seq::empty(),
    }
}

pub open spec fn vpn_keys() -> DetailKeys {
    DetailKeys {
        required: seq!["provider"@, "last_seen"@],
        optional: seq!["confidence"@, "method"@],
    }
}

/// The datasets the API answers about, each with the keys of its detail object.
pub open spec fn documented() -> Seq<(Seq<char>, DetailKeys)> {
    seq![
        ("vpn"@, vpn_keys()),
        ("hosting"@, class_keys()),
        ("relay"@, class_keys()),
        ("tor"@, class_keys()),
        ("cdn"@, class_keys()),
        ("resproxy"@, proxy_keys()),
        ("dcproxy"@, proxy_keys()),
        ("mobproxy"@, proxy_keys()),
    ]
}

fn class_detail() -> (r: Detail)
    ensures
        r@ == class_keys(),
{
    let mut required: Vec<&'static str> = Vec::new();
    required.push("provider");
    required.push("confidence");
    required.push("last_seen");
    let r = Detail { required, optional: Vec::new() };
    assert(r@.required =~= class_keys().required);
    assert(r@.optional =~= class_keys().optional);
    r
}

fn proxy_detail() -> (r: Detail)
    ensures
        r@ == proxy_keys(),
{
    let mut required: Vec<&'static str> = Vec::new();
    required.push("provider");
    required.push("first_seen");
    required.push("last_seen");
    required.push("hits");
    required.push("hits_days_pct");
    required.push("providers_num");
    let r = Detail { required, optional: Vec::new() };
    assert(r@.required =~= proxy_keys().required);
    assert(r@.optional =~= proxy_keys().optional);
    r
}

fn vpn_detail() -> (r: Detail)
    ensures
        r@ == vpn_keys(),
{
    let mut required: Vec<&'static str> = Vec::new();
    required.push("provider");
    required.push("last_seen");
    let mut optional: Vec<&'static str> = Vec::new();
    optional.push("confidence");
    optional.push("method");
    let r = Detail { required, optional };
    assert(r@.required =~= vpn_keys().required);
    assert(r@.optional =~= vpn_keys().optional);
    r
}

pub open spec fn member_specs(members: Seq<(&'static str, Detail)>) -> Seq<
    (Seq<char>, DetailKeys),
> {
    members.map_values(|member: (&'static str, Detail)| (member.0@, member.1@))
}

/// One entry per dataset the API answers about.
pub fn members() -> (r: Vec<(&'static str, Detail)>)
    ensures
        member_specs(r@) == documented(),
{
    let mut r: Vec<(&'static str, Detail)> = Vec::new();
    r.push(("vpn", vpn_detail()));
    r.push(("hosting", class_detail()));
    r.push(("relay", class_detail()));
    r.push(("tor", class_detail()));
    r.push(("cdn", class_detail()));
    r.push(("resproxy", proxy_detail()));
    r.push(("dcproxy", proxy_detail()));
    r.push(("mobproxy", proxy_detail()));
    assert(member_specs(r@) =~= documented());
    r
}

/// One tier's answer: the decoded result, and the answer as it came off the wire.
#[derive(Debug)]
pub struct Answer {
    pub tier: &'static str,
    pub widens: bool,
    pub result: Lookup,
    pub wire: Json,
    pub facts: Vec<Fact>,
}

/// The client of a tier, pointed at a recorder: it carries the tier's key when
/// there is one.
pub fn client_for(rung: &Rung, env: &Environment, base_url: String) -> (r: ClientBuilder)
    ensures
        maybe_text(r.api_key) == rung@.key(env.variables@),
        r.base_url == Some(base_url),
        r == (ClientBuilder {
            api_key: r.api_key,
            base_url: Some(base_url),
            cache_capacity: None,
            cache_ttl: None,
            cache_off: false,
            concurrency: None,
            retries: None,
            timeout: None,
        }),
{
    let builder = Client::builder().base_url(base_url);
    match rung.key(env) {
        Some(key) => builder.api_key(key),
        None => builder,
    }
}

/// What is wrong with a lookup made for a tier: nothing was captured of it, or
/// the key never reached the wire. A key that was not sent would be answered
/// with the free shape, which satisfies every comparison.
pub open spec fn look_up_fault(
    rung: RungView,
    wire: Option<JsonView>,
    carried_key: bool,
) -> Option<Seq<char>> {
    match wire {
        None => Some(about(rung.tier, "no JSON answer was captured for "@ + PROBE@)),
        Some(wire) => if !(wire is Object) {
            Some(about(rung.tier, "the answer is a JSON object"@))
        } else if rung.secret is Some && !carried_key {
            Some(about(rung.tier, "the key never reached the wire"@))
        } else {
            None
        },
    }
}

pub open spec fn wire_view(wire: Option<Json>) -> Option<JsonView> {
    match wire {
        Some(json) => Some(json@),
        None => None,
    }
}

/// Puts a tier's answer together from its lookup, or says what is wrong.
pub fn look_up(
    rung: &Rung,
    result: Lookup,
    wire: Option<Json>,
    carried_key: bool,
    facts: Vec<Fact>,
) -> (r: Result<Answer, String>)
    ensures
        match r {
            Ok(answer) => {
                &&& look_up_fault(rung@, wire_view(wire), carried_key) is None
                &&& answer == (Answer {
                    tier: rung.tier,
                    widens: rung.widens,
                    result,
                    wire: wire->0,
                    facts,
                })
            },
            Err(what) => look_up_fault(rung@, wire_view(wire), carried_key) == Some(what@),
        },
{
    let tier = rung.tier;
    let wire = match wire {
        Some(wire) => wire,
        None => {
            let what = concat("no JSON answer was captured for ", PROBE);
            return Err(said(tier, what.as_str()));
        },
    };
    match &wire {
        Json::Object(_) => {},
        _ => return Err(said(tier, "the answer is a JSON object")),
    }
    if rung.secret.is_some() && !carried_key {
        return Err(said(tier, "the key never reached the wire"));
    }
    Ok(Answer { tier, widens: rung.widens, result, wire, facts })
}

/// A finding about a tier.
pub open spec fn about(tier: Seq<char>, what: Seq<char>) -> Seq<char> {
    tier + ": "@ + what
}

/// The first of the required keys that a populated detail object lacks.
pub open spec fn lacking(
    required: Seq<Seq<char>>,
    fields: Seq<(Seq<char>, JsonView)>,
) -> Option<Seq<char>>
    decreases required.len(),
{
    if required.len() == 0 {
        None
    } else if member_of(fields, required[0]) is None {
        Some(required[0])
    } else {
        lacking(required.skip(1), fields)
    }
}

/// The first of the fields of a detail object that is not documented.
pub open spec fn undocumented(
    fields: Seq<(Seq<char>, JsonView)>,
    keys: DetailKeys,
) -> Option<Seq<char>>
    decreases fields.len(),
{
    if fields.len() == 0 {
        None
    } else if !keys.required.contains(fields[0].0) && !keys.optional.contains(fields[0].0) {
        Some(fields[0].0)
    } else {
        undocumented(fields.skip(1), keys)
    }
}

/// What is wrong with a detail object: it must be an object, empty only beside a
/// flag that is false, and else have every required key and no undocumented one.
pub open spec fn detail_fault(
    tier: Seq<char>,
    name: Seq<char>,
    keys: DetailKeys,
    object: JsonView,
    flag: Option<JsonView>,
) -> Option<Seq<char>> {
    match object {
        JsonView::Object(fields) => if fields.len() == 0 {
            if flag == Some(JsonView::Bool(false)) {
                None
            } else {
                Some(about(tier, name + " is empty, so is_"@ + name + " is false"@))
            }
        } else {
            match lacking(keys.required, fields) {
                Some(key) => Some(
                    about(tier, name + " is populated but carries no "@ + key),
                ),
                None => match undocumented(fields, keys) {
                    Some(key) => Some(
                        about(
                            tier,
                            name + "."@ + key + " is not a documented key of this detail object"@,
                        ),
                    ),
                    None => None,
                },
            }
        },
        _ => Some(about(tier, name + " must be an object when present, got "@ + rendered(object))),
    }
}

/// What is wrong with one dataset of an answer: its flag is a boolean when it is
/// there, and its detail object is there only beside the flag.
pub open spec fn member_fault(
    tier: Seq<char>,
    name: Seq<char>,
    keys: DetailKeys,
    wire: JsonView,
) -> Option<Seq<char>> {
    let flag_name = "is_"@ + name;
    let flag = wire.member(flag_name);
    if flag matches Some(value) && value.as_bool() is None {
        Some(about(tier, flag_name + " is present, so it must be a real boolean"@))
    } else {
        match wire.member(name) {
            None => None,
            Some(object) => if flag is None {
                Some(about(tier, name + " is served without "@ + flag_name))
            } else {
                detail_fault(tier, name, keys, object, flag)
            },
        }
    }
}

pub open spec fn members_fault(
    tier: Seq<char>,
    specs: Seq<(Seq<char>, DetailKeys)>,
    wire: JsonView,
) -> Option<Seq<char>>
    decreases specs.len(),
{
    if specs.len() == 0 {
        None
    } else {
        match member_fault(tier, specs[0].0, specs[0].1, wire) {
            Some(fault) => Some(fault),
            None => members_fault(tier, specs.skip(1), wire),
        }
    }
}

/// What is wrong with an answer, whatever the plan: presence is the plan, the
/// value is the answer.
pub open spec fn shape_fault(tier: Seq<char>, is_vpn: bool, wire: JsonView) -> Option<Seq<char>> {
    if !(wire.member("ip"@) matches Some(ip) && ip.as_text() is Some) {
        Some(about(tier, "ip is not a string"@))
    } else {
        match wire.member("is_vpn"@) {
            Some(JsonView::Bool(served)) => if served != is_vpn {
                Some(about(tier, "is_vpn disagrees with the wire"@))
            } else {
                members_fault(tier, documented(), wire)
            },
            _ => Some(about(tier, "is_vpn is on every plan"@)),
        }
    }
}

/// What is wrong with an answer that a tier served.
pub open spec fn served_fault(
    tier: Seq<char>,
    ip: Seq<char>,
    is_bogon: bool,
    is_vpn: bool,
    wire: JsonView,
) -> Option<Seq<char>> {
    if ip != PROBE@ {
        Some(about(tier, "answered about the wrong address"@))
    } else if is_bogon {
        Some(about(tier, "a served answer is not a local one"@))
    } else {
        shape_fault(tier, is_vpn, wire)
    }
}

pub open spec fn fault(r: Result<(), String>) -> Option<Seq<char>> {
    match r {
        Ok(_) => None,
        Err(what) => Some(what@),
    }
}

fn said(tier: &str, what: &str) -> (r: String)
    ensures
        r@ == about(tier@, what@),
{
    let mut text = concat(tier, ": ");
    text.append(what);
    text
}

fn has_key(keys: &Vec<&'static str>, key: &str) -> (r: bool)
    ensures
        r == key_texts(keys@).contains(key@),
{
    let ghost all = key_texts(keys@);
    for i in 0..keys.len()
        invariant
            all == key_texts(keys@),
            forall|j: int| 0 <= j < i ==> #[trigger] all[j] != key@,
    {
        assert(all[i as int] == keys@[i as int]@);
        if same(keys[i], key) {
            return true;
        }
    }
    false
}

fn assert_detail(
    tier: &str,
    name: &str,
    spec: &Detail,
    object: &Json,
    flag: Option<&Json>,
) -> (r: Result<(), String>)
    ensures
        fault(r) == detail_fault(
            tier@,
            name@,
            spec@,
            object@,
            match flag {
                Some(json) => Some(json@),
                None => None,
            },
        ),
{
    match object {
        Json::Object(fields) => {
            let ghost views = member_views(fields@);
            proof {
                member_views_are(fields@);
            }
            if fields.len() == 0 {
                let off = match flag {
                    Some(Json::Bool(b)) => !*b,
                    _ => false,
                };
                if off {
                    return Ok(());
                }
                let mut what = concat(name, " is empty, so is_");
                what.append(name);
                what.append(" is false");
                return Err(said(tier, what.as_str()));
            }
            let ghost required = key_texts(spec.required@);
            assert(required.skip(0) =~= required);
            for i in 0..spec.required.len()
                invariant
                    required == key_texts(spec.required@),
                    required == spec@.required,
                    *object == Json::Object(*fields),
                    views == member_views(fields@),
                    object@ == JsonView::Object(views),
                    views.len() > 0,
                    lacking(required, views) == lacking(required.skip(i as int), views),
            {
                assert(required.skip(i as int).skip(1) =~= required.skip(i + 1));
                assert(required[i as int] == spec.required@[i as int]@);
                if object.get(spec.required[i]).is_none() {
                    let mut what = concat(name, " is populated but carries no ");
                    what.append(spec.required[i]);
                    return Err(said(tier, what.as_str()));
                }
            }
            assert(required.skip(required.len() as int) =~= Seq::empty());
            assert(views.skip(0) =~= views);
            for i in 0..fields.len()
                invariant
                    views == member_views(fields@),
                    views.len() == fields@.len(),
                    views.len() > 0,
                    object@ == JsonView::Object(views),
                    lacking(spec@.required, views) is None,
                    forall|j: int|
                        0 <= j < fields@.len() ==> #[trigger] views[j] == (
                            fields@[j].0@,
                            fields@[j].1@,
                        ),
                    undocumented(views, spec@) == undocumented(views.skip(i as int), spec@),
            {
                assert(views.skip(i as int).skip(1) =~= views.skip(i + 1));
                assert(views.skip(i as int)[0] == views[i as int]);
                let key = fields[i].0.as_str();
                if !has_key(&spec.required, key) && !has_key(&spec.optional, key) {
                    let mut what = concat(name, ".");
                    what.append(key);
                    what.append(" is not a documented key of this detail object");
                    return Err(said(tier, what.as_str()));
                }
            }
            assert(views.skip(views.len() as int) =~= Seq::empty());
            Ok(())
        },
        other => {
            let shown = render(other);
            let mut what = concat(name, " must be an object when present, got ");
            what.append(shown.as_str());
            Err(said(tier, what.as_str()))
        },
    }
}

fn assert_member(tier: &str, name: &str, spec: &Detail, wire: &Json) -> (r: Result<(), String>)
    ensures
        fault(r) == member_fault(tier@, name@, spec@, wire@),
{
    let flag_name = concat("is_", name);
    let flag = wire.get(flag_name.as_str());
    match flag {
        Some(Json::Bool(_)) => {},
        Some(_) => {
            let what = concat(
                flag_name.as_str(),
                " is present, so it must be a real boolean",
            );
            return Err(said(tier, what.as_str()));
        },
        None => {},
    }
    match wire.get(name) {
        None => Ok(()),
        Some(object) => {
            if flag.is_none() {
                let mut what = concat(name, " is served without ");
                what.append(flag_name.as_str());
                return Err(said(tier, what.as_str()));
            }
            assert_detail(tier, name, spec, object, flag)
        },
    }
}

/// Holds an answer to the shape it has on every plan, or says what is wrong.
pub fn assert_shape(answer: &Answer) -> (r: Result<(), String>)
    ensures
        fault(r) == shape_fault(answer.tier@, answer.result@.answer.is_vpn, answer.wire@),
{
    let tier = answer.tier;
    match answer.wire.get("ip") {
        Some(Json::Text(_)) => {},
        _ => return Err(said(tier, "ip is not a string")),
    }
    match answer.wire.get("is_vpn") {
        Some(Json::Bool(served)) => if *served != answer.result.answer.is_vpn {
            return Err(said(tier, "is_vpn disagrees with the wire"));
        },
        _ => return Err(said(tier, "is_vpn is on every plan")),
    }
    let all = members();
    let ghost specs = documented();
    assert(specs.skip(0) =~= specs);
    for i in 0..all.len()
        invariant
            specs == member_specs(all@),
            members_fault(tier@, specs, answer.wire@) == members_fault(
                tier@,
                specs.skip(i as int),
                answer.wire@,
            ),
            tier == answer.tier,
            shape_fault(tier@, answer.result@.answer.is_vpn, answer.wire@) == members_fault(
                tier@,
                specs,
                answer.wire@,
            ),
    {
        assert(specs.skip(i as int).skip(1) =~= specs.skip(i + 1));
        assert(specs[i as int] == (all@[i as int].0@, all@[i as int].1@));
        match assert_member(tier, all[i].0, &all[i].1, &answer.wire) {
            Ok(_) => {},
            Err(what) => return Err(what),
        }
    }
    assert(specs.skip(specs.len() as int) =~= Seq::empty());
    Ok(())
}

/// Holds an answer to what a tier serves, or says what is wrong.
pub fn assert_served_by_tier(answer: &Answer) -> (r: Result<(), String>)
    ensures
        fault(r) == served_fault(
            answer.tier@,
            answer.result@.answer.ip,
            answer.result@.is_bogon,
            answer.result@.answer.is_vpn,
            answer.wire@,
        ),
{
    if !same(answer.result.answer.ip.as_str(), PROBE) {
        return Err(said(answer.tier, "answered about the wrong address"));
    }
    if answer.result.is_bogon {
        return Err(said(answer.tier, "a served answer is not a local one"));
    }
    assert_shape(answer)
}

pub open spec fn names(members: Seq<(Seq<char>, JsonView)>) -> Seq<Seq<char>> {
    members.map_values(|member: (Seq<char>, JsonView)| member.0)
}

/// The fields the client holds, by their wire names and in their order: exactly
/// those that survived the decode.
pub fn client_fields(result: &Lookup) -> (r: Vec<String>)
    ensures
        texts(r@) == names(present(result@.answer.fields())),
{
    let mut r: Vec<String> = Vec::new();
    let wire = result.answer.wire();
    let ghost views = present(result@.answer.fields());
    assert(texts(r@) =~= names(views.take(0)));
    match &wire {
        Json::Object(members) => {
            proof {
                member_views_are(members@);
            }
            for i in 0..members.len()
                invariant
                    views == member_views(members@),
                    views.len() == members@.len(),
                    forall|j: int|
                        0 <= j < members@.len() ==> #[trigger] views[j] == (
                            members@[j].0@,
                            members@[j].1@,
                        ),
                    texts(r@) =~= names(views.take(i as int)),
            {
                let name = members[i].0.clone();
                proof {
                    texts_push(r@, name);
                }
                r.push(name);
                assert(views.take(i + 1) =~= views.take(i as int).push(views[i as int]));
            }
            assert(views.take(views.len() as int) =~= views);
        },
        _ => {},
    }
    r
}

/// A variable has the value it was first set to, and one that was not set has none.
pub proof fn law_a_variable_has_its_first_value(
    variables: Seq<(String, String)>,
    name: Seq<char>,
    i: int,
)
    requires
        0 <= i <= variables.len(),
        forall|j: int| 0 <= j < i ==> (#[trigger] variables[j]).0@ != name,
        i < variables.len() ==> variables[i].0@ == name,
    ensures
        variable(variables, name) == (if i < variables.len() {
            Some(variables[i].1@)
        } else {
            None
        }),
    decreases i,
{
    if i > 0 {
        let rest = variables.skip(1);
        assert(variables[0].0@ != name);
        assert forall|j: int| 0 <= j < i - 1 implies (#[trigger] rest[j]).0@ != name by {
            assert(rest[j] == variables[j + 1]);
        }
        law_a_variable_has_its_first_value(rest, name, i - 1);
    }
}

/// The tiers, ascending: only the first needs no key, and each paid one widens what is
/// below it.
pub proof fn law_the_tiers_ascend()
    ensures
        ladder().len() == 5,
        ladder()[0].tier == "unauth"@ && ladder()[0].secret is None && !ladder()[0].widens,
        ladder()[1].tier == "free"@ && ladder()[1].secret == Some(
            "VPNDETECTION_STAGING_KEY_FREE"@,
        ) && !ladder()[1].widens,
        ladder()[2].tier == "starter"@ && ladder()[2].secret == Some(
            "VPNDETECTION_STAGING_KEY_STARTER"@,
        ) && ladder()[2].widens,
        ladder()[3].tier == "scale"@ && ladder()[3].secret == Some(
            "VPNDETECTION_STAGING_KEY_SCALE"@,
        ) && ladder()[3].widens,
        ladder()[4].tier == "max"@ && ladder()[4].secret == Some("VPNDETECTION_STAGING_KEY_MAX"@)
            && ladder()[4].widens,
{
}

/// A tier has the key its variable is set to, without the space around it, and none when
/// that is blank. It is skipped exactly when it needs a key and has none, for a reason
/// that names the variable and the tier.
pub proof fn law_a_tier_is_skipped_without_its_key(
    rung: RungView,
    variables: Seq<(String, String)>,
)
    ensures
        rung.secret is None ==> rung.key(variables) is None && rung.skip_reason(variables) is None,
        rung.secret matches Some(name) ==> {
            &&& variable(variables, name) is None ==> rung.key(variables) is None
            &&& variable(variables, name) matches Some(value) ==> rung.key(variables) == (if trimmed(
                value,
            ).len() == 0 {
                None
            } else {
                Some(trimmed(value))
            })
            &&& rung.key(variables) is Some ==> rung.skip_reason(variables) is None
            &&& rung.key(variables) is None ==> rung.skip_reason(variables) == Some(
                name + " is not set, so the "@ + rung.tier + " tier cannot be exercised"@,
            )
        },
{
}

/// A run observes exactly the tiers that are not skipped, in order.
pub proof fn law_what_is_not_skipped_is_observed(
    rungs: Seq<RungView>,
    rung: RungView,
    variables: Seq<(String, String)>,
)
    ensures
        observable_of(Seq::empty(), variables) == Seq::<RungView>::empty(),
        rung.skip_reason(variables) is None ==> observable_of(rungs.push(rung), variables)
            == observable_of(rungs, variables).push(rung),
        rung.skip_reason(variables) is Some ==> observable_of(rungs.push(rung), variables)
            == observable_of(rungs, variables),
{
    assert(rungs.push(rung).drop_last() =~= rungs);
}

/// What the API documents of each dataset: which keys a populated detail object always
/// has, and which only the widest tier serves.
pub proof fn law_what_each_dataset_documents()
    ensures
        documented().len() == 8,
        ({
            let class = seq!["provider"@, "confidence"@, "last_seen"@];
            let proxy = seq![
                "provider"@,
                "first_seen"@,
                "last_seen"@,
                "hits"@,
                "hits_days_pct"@,
                "providers_num"@,
            ];
            &&& documented()[0].0 == "vpn"@ && documented()[0].1.required == seq![
                "provider"@,
                "last_seen"@,
            ] && documented()[0].1.optional == seq!["confidence"@, "method"@]
            &&& documented()[1].0 == "hosting"@ && documented()[2].0 == "relay"@
                && documented()[3].0 == "tor"@ && documented()[4].0 == "cdn"@
            &&& documented()[5].0 == "resproxy"@ && documented()[6].0 == "dcproxy"@
                && documented()[7].0 == "mobproxy"@
            &&& forall|i: int|
                1 <= i < 5 ==> (#[trigger] documented()[i]).1.required == class
                    && documented()[i].1.optional.len() == 0
            &&& forall|i: int|
                5 <= i < 8 ==> (#[trigger] documented()[i]).1.required == proxy
                    && documented()[i].1.optional.len() == 0
        }),
{
}

/// A tier's lookup stands exactly when a JSON object was captured of it and, where the
/// tier has a key, the key reached the wire.
pub proof fn law_when_a_tier_was_looked_up(
    rung: RungView,
    wire: Option<JsonView>,
    carried_key: bool,
)
    ensures
        (look_up_fault(rung, wire, carried_key) is None) == (wire matches Some(json) && json
            is Object && (rung.secret is None || carried_key)),
        look_up_fault(rung, None, carried_key) == Some(
            rung.tier + ": "@ + ("no JSON answer was captured for "@ + "45.83.91.1"@),
        ),
        wire matches Some(json) ==> json is Object && rung.secret is Some && !carried_key
            ==> look_up_fault(rung, wire, carried_key) == Some(
            rung.tier + ": "@ + "the key never reached the wire"@,
        ),
{
}

/// A populated detail object lacks the first of the keys it must have that none of its
/// members has, and lacks none when it has them all.
pub proof fn law_which_key_a_detail_lacks(
    required: Seq<Seq<char>>,
    fields: Seq<(Seq<char>, JsonView)>,
    i: int,
)
    requires
        0 <= i <= required.len(),
        forall|j: int| 0 <= j < i ==> member_of(fields, #[trigger] required[j]) is Some,
        i < required.len() ==> member_of(fields, required[i]) is None,
    ensures
        lacking(required, fields) == (if i < required.len() {
            Some(required[i])
        } else {
            None
        }),
    decreases i,
{
    if i > 0 {
        let rest = required.skip(1);
        assert(member_of(fields, required[0]) is Some);
        assert forall|j: int| 0 <= j < i - 1 implies member_of(fields, #[trigger] rest[j]) is Some by {
            assert(rest[j] == required[j + 1]);
        }
        law_which_key_a_detail_lacks(rest, fields, i - 1);
    }
}

/// The first member of a detail object that is neither required nor optional is not
/// documented, and there is none when each is.
pub proof fn law_which_key_is_not_documented(
    fields: Seq<(Seq<char>, JsonView)>,
    keys: DetailKeys,
    i: int,
)
    requires
        0 <= i <= fields.len(),
        forall|j: int|
            0 <= j < i ==> keys.required.contains((#[trigger] fields[j]).0)
                || keys.optional.contains(fields[j].0),
        i < fields.len() ==> !keys.required.contains(fields[i].0) && !keys.optional.contains(
            fields[i].0,
        ),
    ensures
        undocumented(fields, keys) == (if i < fields.len() {
            Some(fields[i].0)
        } else {
            None
        }),
    decreases i,
{
    if i > 0 {
        let rest = fields.skip(1);
        assert(keys.required.contains(fields[0].0) || keys.optional.contains(fields[0].0));
        assert forall|j: int| 0 <= j < i - 1 implies keys.required.contains(
            (#[trigger] rest[j]).0,
        ) || keys.optional.contains(rest[j].0) by {
            assert(rest[j] == fields[j + 1]);
        }
        law_which_key_is_not_documented(rest, keys, i - 1);
    }
}

/// A dataset of an answer is as it should be exactly when its flag is a boolean where it
/// is there, and its detail object, where that is there, stands beside the flag and is
/// empty beside one that is false, or has every key it must have and no other than those
/// documented.
pub proof fn law_when_a_dataset_is_as_it_should_be(
    tier: Seq<char>,
    name: Seq<char>,
    keys: DetailKeys,
    wire: JsonView,
)
    ensures
        (member_fault(tier, name, keys, wire) is None) == ({
            let flag = wire.member("is_"@ + name);
            &&& flag matches Some(value) ==> value is Bool
            &&& wire.member(name) matches Some(object) ==> {
                &&& flag is Some
                &&& object matches JsonView::Object(fields) && (if fields.len() == 0 {
                    flag == Some(JsonView::Bool(false))
                } else {
                    lacking(keys.required, fields) is None && undocumented(fields, keys) is None
                })
            }
        }),
{
}

/// An answer is as it should be exactly when its address is a text, its VPN flag is served
/// and agrees with what the client holds, and each dataset is as it should be. One that a
/// tier served is about the address that was asked about, and was not computed.
pub proof fn law_when_an_answer_is_as_it_should_be(
    tier: Seq<char>,
    ip: Seq<char>,
    is_bogon: bool,
    is_vpn: bool,
    wire: JsonView,
)
    ensures
        (shape_fault(tier, is_vpn, wire) is None) == ({
            &&& wire.member("ip"@) matches Some(address) && address is Text
            &&& wire.member("is_vpn"@) == Some(JsonView::Bool(is_vpn))
            &&& members_fault(tier, documented(), wire) is None
        }),
        (served_fault(tier, ip, is_bogon, is_vpn, wire) is None) == (ip == "45.83.91.1"@ && !is_bogon
            && shape_fault(tier, is_vpn, wire) is None),
{
}

/// What is wrong with the first dataset that is not as it should be is what is wrong with
/// them all.
pub proof fn law_the_first_dataset_at_fault(
    tier: Seq<char>,
    specs: Seq<(Seq<char>, DetailKeys)>,
    wire: JsonView,
    i: int,
)
    requires
        0 <= i <= specs.len(),
        forall|j: int|
            0 <= j < i ==> member_fault(tier, (#[trigger] specs[j]).0, specs[j].1, wire) is None,
        i < specs.len() ==> member_fault(tier, specs[i].0, specs[i].1, wire) is Some,
    ensures
        members_fault(tier, specs, wire) == (if i < specs.len() {
            member_fault(tier, specs[i].0, specs[i].1, wire)
        } else {
            None
        }),
    decreases i,
{
    if i > 0 {
        let rest = specs.skip(1);
        assert(member_fault(tier, specs[0].0, specs[0].1, wire) is None);
        assert forall|j: int| 0 <= j < i - 1 implies member_fault(
            tier,
            (#[trigger] rest[j]).0,
            rest[j].1,
            wire,
        ) is None by {
            assert(rest[j] == specs[j + 1]);
        }
        law_the_first_dataset_at_fault(tier, rest, wire, i - 1);
    }
}

proof fn named_is_member(members: Seq<(Seq<char>, JsonView)>, name: Seq<char>)
    ensures
        names(members).contains(name) == (member_of(members, name) is Some),
    decreases members.len(),
{
    if members.len() > 0 {
        let rest = members.skip(1);
        named_is_member(rest, name);
        if names(members).contains(name) {
            let k = names(members).index_of(name);
            assert(members[k].0 == name);
            if k > 0 {
                assert(names(rest)[k - 1] == name);
            }
        }
        if members[0].0 == name {
            assert(names(members)[0] == name);
        } else if names(rest).contains(name) {
            let k = names(rest).index_of(name);
            assert(names(members)[k + 1] == name);
        }
    }
}

/// The fields a client holds are exactly those its answer has on the wire.
pub proof fn law_a_client_holds_what_is_on_the_wire(lookup: Lookup, name: Seq<char>)
    ensures
        names(present(lookup@.answer.fields())).contains(name) == (lookup@.answer.wire().member(name)
            is Some),
{
    named_is_member(present(lookup@.answer.fields()), name);
}

/// A finding names the tier it is about, and then what it is. The address that is looked up,
/// and the deployment it is looked up on, are always the same.
pub proof fn law_a_finding_names_its_tier(tier: Seq<char>, what: Seq<char>)
    ensures
        about(tier, what) == tier + ": "@ + what,
        PROBE@ == "45.83.91.1"@,
        STAGING@ == "https://api-staging.vpndetection.io"@,
{
}

/// A tier reads as it is.
pub proof fn law_a_tier_reads_as_it_is(rung: Rung)
    ensures
        rung@.tier == rung.tier@,
        rung.secret is None ==> rung@.secret is None,
        rung.secret matches Some(name) ==> rung@.secret == Some(name@),
        rung@.widens == rung.widens,
{
}

/// What is said of a dataset that is not as it should be.
pub proof fn law_what_is_said_of_a_dataset_at_fault(
    tier: Seq<char>,
    name: Seq<char>,
    keys: DetailKeys,
    fields: Seq<(Seq<char>, JsonView)>,
    object: JsonView,
    flag: Option<JsonView>,
)
    ensures
        fields.len() == 0 && flag != Some(JsonView::Bool(false)) ==> detail_fault(
            tier,
            name,
            keys,
            JsonView::Object(fields),
            flag,
        ) == Some(tier + ": "@ + (name + " is empty, so is_"@ + name + " is false"@)),
        fields.len() > 0 ==> (lacking(keys.required, fields) matches Some(key) ==> detail_fault(
            tier,
            name,
            keys,
            JsonView::Object(fields),
            flag,
        ) == Some(tier + ": "@ + (name + " is populated but carries no "@ + key))),
        fields.len() > 0 && lacking(keys.required, fields) is None ==> (undocumented(
            fields,
            keys,
        ) matches Some(key) ==> detail_fault(tier, name, keys, JsonView::Object(fields), flag)
            == Some(
            tier + ": "@ + (name + "."@ + key + " is not a documented key of this detail object"@),
        )),
        !(object is Object) ==> detail_fault(tier, name, keys, object, flag) == Some(
            tier + ": "@ + (name + " must be an object when present, got "@ + rendered(object)),
        ),
{
}

}
