//! Reading conditions out of JSON, for a policy that lives in a configuration.

use vstd::prelude::*;

use crate::index::inserted;
use crate::json::{
    entry_views, entry_views_are, member_views, member_views_are, render, rendered, Json, JsonView,
};
use crate::middleware::condition::{
    condition_views, value_views, Bound, Condition, ConditionError, Conditions, Value, ValueView,
};
use crate::number::Number;
use crate::text::{concat, same};

verus! {

/// The names of the bounds.
pub const BOUND_KEYS: [&'static str; 4] = ["gte", "gt", "lte", "lt"];

pub open spec fn bound_key(name: Seq<char>) -> bool {
    name == "gte"@ || name == "gt"@ || name == "lte"@ || name == "lt"@
}

/// Whether an object is a bound: it has members, and each is named as a bound is.
pub open spec fn bound_shaped(members: Seq<(Seq<char>, JsonView)>) -> bool {
    members.len() > 0 && forall|i: int|
        0 <= i < members.len() ==> bound_key((#[trigger] members[i]).0)
}

/// A bound with one more limit, under the name a limit of its kind has.
pub open spec fn limited(bound: Bound, name: Seq<char>, limit: Number) -> Bound {
    if name == "gte"@ {
        Bound { at_least: Some(limit), ..bound }
    } else if name == "gt"@ {
        Bound { above: Some(limit), ..bound }
    } else if name == "lte"@ {
        Bound { at_most: Some(limit), ..bound }
    } else {
        Bound { below: Some(limit), ..bound }
    }
}

pub open spec fn not_a_limit(name: Seq<char>, value: JsonView) -> Seq<char> {
    "bound "@ + name + " must be a number, got "@ + rendered(value)
}

/// The bound an object is, or what is wrong with it.
pub open spec fn read_bound(members: Seq<(Seq<char>, JsonView)>) -> Result<Bound, Seq<char>>
    decreases members.len(),
{
    if members.len() == 0 {
        Ok(Bound::none())
    } else {
        match read_bound(members.drop_last()) {
            Err(wrong) => Err(wrong),
            Ok(bound) => match members.last().1.as_number() {
                Some(limit) => Ok(limited(bound, members.last().0, limit)),
                None => Err(not_a_limit(members.last().0, members.last().1)),
            },
        }
    }
}

/// The term a JSON value is, or what is wrong with it.
pub open spec fn read_value(json: JsonView) -> Result<ValueView, Seq<char>>
    decreases json,
{
    match json {
        JsonView::Bool(b) => Ok(ValueView::Bool(b)),
        JsonView::Text(s) => Ok(ValueView::Text(s)),
        JsonView::Null => Ok(ValueView::Null),
        JsonView::Number { text, value } => match value {
            Some(n) => Ok(ValueView::Number(n)),
            None => Err(text + " is not a finite number"@),
        },
        JsonView::Array(entries) => match read_values(entries) {
            Ok(values) => Ok(ValueView::AnyOf(values)),
            Err(wrong) => Err(wrong),
        },
        JsonView::Object(members) => if bound_shaped(members) {
            match read_bound(members) {
                Ok(bound) => Ok(ValueView::Bound(bound)),
                Err(wrong) => Err(wrong),
            }
        } else {
            match read_terms(members) {
                Ok(terms) => Ok(ValueView::Nested(terms)),
                Err(wrong) => Err(wrong),
            }
        },
    }
}

pub open spec fn read_values(entries: Seq<JsonView>) -> Result<Seq<ValueView>, Seq<char>>
    decreases entries,
{
    if entries.len() == 0 {
        Ok(Seq::empty())
    } else {
        match read_values(entries.drop_last()) {
            Err(wrong) => Err(wrong),
            Ok(values) => match read_value(entries.last()) {
                Err(wrong) => Err(wrong),
                Ok(value) => Ok(values.push(value)),
            },
        }
    }
}

/// The terms an object has, or what is wrong with the first that is not one.
pub open spec fn read_terms(members: Seq<(Seq<char>, JsonView)>) -> Result<
    Seq<(Seq<char>, ValueView)>,
    Seq<char>,
>
    decreases members,
{
    if members.len() == 0 {
        Ok(Seq::empty())
    } else {
        match read_terms(members.drop_last()) {
            Err(wrong) => Err(wrong),
            Ok(terms) => match read_value(members.last().1) {
                Err(wrong) => Err(wrong),
                Ok(value) => Ok(inserted(terms, members.last().0, value)),
            },
        }
    }
}

/// The condition a JSON value is, or what is wrong with it.
pub open spec fn read_condition(json: JsonView) -> Result<
    Seq<(Seq<char>, ValueView)>,
    Seq<char>,
> {
    match json {
        JsonView::Object(members) => read_terms(members),
        _ => Err("a condition must be an object, got "@ + rendered(json)),
    }
}

pub open spec fn read_all(entries: Seq<JsonView>) -> Result<
    Seq<Seq<(Seq<char>, ValueView)>>,
    Seq<char>,
>
    decreases entries.len(),
{
    if entries.len() == 0 {
        Ok(Seq::empty())
    } else {
        match read_all(entries.drop_last()) {
            Err(wrong) => Err(wrong),
            Ok(conditions) => match read_condition(entries.last()) {
                Err(wrong) => Err(wrong),
                Ok(condition) => Ok(conditions.push(condition)),
            },
        }
    }
}

/// The conditions a JSON value is, or what is wrong with it: an array is a list
/// of conditions, and anything else must be one.
pub open spec fn read_conditions(json: JsonView) -> Result<
    Seq<Seq<(Seq<char>, ValueView)>>,
    Seq<char>,
> {
    match json {
        JsonView::Array(entries) => read_all(entries),
        _ => match read_condition(json) {
            Ok(condition) => Ok(seq![condition]),
            Err(wrong) => Err(wrong),
        },
    }
}

proof fn read_bound_fails(members: Seq<(Seq<char>, JsonView)>, k: int)
    requires
        0 <= k <= members.len(),
        read_bound(members.take(k)) is Err,
    ensures
        read_bound(members) == read_bound(members.take(k)),
    decreases members.len() - k,
{
    if k < members.len() {
        assert(members.take(k + 1).drop_last() =~= members.take(k));
        read_bound_fails(members, k + 1);
    } else {
        assert(members.take(k) =~= members);
    }
}

proof fn read_values_fails(entries: Seq<JsonView>, k: int)
    requires
        0 <= k <= entries.len(),
        read_values(entries.take(k)) is Err,
    ensures
        read_values(entries) == read_values(entries.take(k)),
    decreases entries.len() - k,
{
    if k < entries.len() {
        assert(entries.take(k + 1).drop_last() =~= entries.take(k));
        read_values_fails(entries, k + 1);
    } else {
        assert(entries.take(k) =~= entries);
    }
}

proof fn read_terms_fails(members: Seq<(Seq<char>, JsonView)>, k: int)
    requires
        0 <= k <= members.len(),
        read_terms(members.take(k)) is Err,
    ensures
        read_terms(members) == read_terms(members.take(k)),
    decreases members.len() - k,
{
    if k < members.len() {
        assert(members.take(k + 1).drop_last() =~= members.take(k));
        read_terms_fails(members, k + 1);
    } else {
        assert(members.take(k) =~= members);
    }
}

proof fn read_all_fails(entries: Seq<JsonView>, k: int)
    requires
        0 <= k <= entries.len(),
        read_all(entries.take(k)) is Err,
    ensures
        read_all(entries) == read_all(entries.take(k)),
    decreases entries.len() - k,
{
    if k < entries.len() {
        assert(entries.take(k + 1).drop_last() =~= entries.take(k));
        read_all_fails(entries, k + 1);
    } else {
        assert(entries.take(k) =~= entries);
    }
}

fn is_bound_key(name: &str) -> (r: bool)
    ensures
        r == bound_key(name@),
{
    let keys = BOUND_KEYS;
    same(name, keys[0]) || same(name, keys[1]) || same(name, keys[2]) || same(name, keys[3])
}

/// Reads the bound an object is, when it is one.
fn bound_from_json(members: &Vec<(String, Json)>) -> (r: Result<Option<Bound>, ConditionError>)
    ensures
        match r {
            Ok(None) => !bound_shaped(member_views(members@)),
            Ok(Some(bound)) => bound_shaped(member_views(members@)) && read_bound(
                member_views(members@),
            ) == Ok::<Bound, Seq<char>>(bound),
            Err(e) => bound_shaped(member_views(members@)) && read_bound(member_views(members@))
                == Err::<Bound, Seq<char>>(e@),
        },
{
    let ghost views = member_views(members@);
    proof {
        member_views_are(members@);
    }
    if members.len() == 0 {
        return Ok(None);
    }
    for i in 0..members.len()
        invariant
            views == member_views(members@),
            views.len() == members@.len(),
            forall|j: int|
                0 <= j < members@.len() ==> #[trigger] views[j] == (members@[j].0@, members@[j].1@),
            forall|j: int| 0 <= j < i ==> bound_key((#[trigger] views[j]).0),
    {
        if !is_bound_key(members[i].0.as_str()) {
            assert(!bound_key(views[i as int].0));
            return Ok(None);
        }
    }
    let mut bound = Bound { at_least: None, above: None, at_most: None, below: None };
    for i in 0..members.len()
        invariant
            views == member_views(members@),
            views.len() == members@.len(),
            views.len() > 0,
            bound_shaped(views),
            forall|j: int|
                0 <= j < members@.len() ==> #[trigger] views[j] == (members@[j].0@, members@[j].1@),
            read_bound(views.take(i as int)) == Ok::<Bound, Seq<char>>(bound),
    {
        assert(views.take(i + 1).drop_last() =~= views.take(i as int));
        let key = members[i].0.as_str();
        let limit = match &members[i].1 {
            Json::Number(n) => n.value,
            _ => None,
        };
        match limit {
            Some(n) => {
                if same(key, "gte") {
                    bound = bound.and_gte(n);
                } else if same(key, "gt") {
                    bound = bound.and_gt(n);
                } else if same(key, "lte") {
                    bound = bound.and_lte(n);
                } else {
                    bound = bound.and_lt(n);
                }
            },
            None => {
                let mut message = "bound ".to_owned();
                message.append(key);
                message.append(" must be a number, got ");
                message.append(render(&members[i].1).as_str());
                proof {
                    read_bound_fails(views, i + 1);
                }
                return Err(ConditionError { message });
            },
        }
    }
    assert(views.take(views.len() as int) =~= views);
    Ok(Some(bound))
}

fn value_from_json(raw: &Json) -> (r: Result<Value, ConditionError>)
    ensures
        match r {
            Ok(value) => read_value(raw@) == Ok::<ValueView, Seq<char>>(value@),
            Err(e) => read_value(raw@) == Err::<ValueView, Seq<char>>(e@),
        },
    decreases *raw, 1int,
{
    match raw {
        Json::Bool(b) => Ok(Value::Bool(*b)),
        Json::Text(s) => Ok(Value::Text(s.clone())),
        Json::Null => Ok(Value::Null),
        Json::Number(n) => match n.value {
            Some(n) => Ok(Value::Number(n)),
            None => {
                Err(ConditionError { message: concat(n.text.as_str(), " is not a finite number") })
            },
        },
        Json::Array(entries) => {
            let ghost views = entry_views(entries@);
            proof {
                entry_views_are(entries@);
            }
            let mut values: Vec<Value> = Vec::new();
            for i in 0..entries.len()
                invariant
                    *raw == Json::Array(*entries),
                    views == entry_views(entries@),
                    views.len() == entries@.len(),
                    forall|j: int|
                        0 <= j < entries@.len() ==> #[trigger] views[j] == entries@[j]@,
                    read_values(views.take(i as int)) == Ok::<Seq<ValueView>, Seq<char>>(
                        value_views(values@),
                    ),
            {
                assert(views.take(i + 1).drop_last() =~= views.take(i as int));
                assert(decreases_to!(*raw => raw->Array_0));
                assert(decreases_to!(*entries => entries@));
                assert(decreases_to!(entries@ => entries@[i as int]));
                match value_from_json(&entries[i]) {
                    Ok(value) => {
                        let ghost before = values@;
                        values.push(value);
                        assert(values@.drop_last() =~= before);
                    },
                    Err(e) => {
                        proof {
                            read_values_fails(views, i + 1);
                        }
                        return Err(e);
                    },
                }
            }
            assert(views.take(views.len() as int) =~= views);
            Ok(Value::AnyOf(values))
        },
        Json::Object(members) => match bound_from_json(members) {
            Err(e) => Err(e),
            Ok(Some(bound)) => Ok(Value::Bound(bound)),
            Ok(None) => match object(raw) {
                Ok(nested) => Ok(Value::Nested(nested)),
                Err(e) => Err(e),
            },
        },
    }
}

fn object(raw: &Json) -> (r: Result<Condition, ConditionError>)
    ensures
        match r {
            Ok(condition) => read_condition(raw@) == Ok::<Seq<(Seq<char>, ValueView)>, Seq<char>>(
                condition@,
            ),
            Err(e) => read_condition(raw@) == Err::<Seq<(Seq<char>, ValueView)>, Seq<char>>(e@),
        },
    decreases *raw, 0int,
{
    match raw {
        Json::Object(members) => {
            let ghost views = member_views(members@);
            proof {
                member_views_are(members@);
            }
            let mut condition = Condition::new();
            for i in 0..members.len()
                invariant
                    *raw == Json::Object(*members),
                    views == member_views(members@),
                    views.len() == members@.len(),
                    forall|j: int|
                        0 <= j < members@.len() ==> #[trigger] views[j] == (
                            members@[j].0@,
                            members@[j].1@,
                        ),
                    read_terms(views.take(i as int)) == Ok::<
                        Seq<(Seq<char>, ValueView)>,
                        Seq<char>,
                    >(condition@),
            {
                assert(views.take(i + 1).drop_last() =~= views.take(i as int));
                assert(decreases_to!(*raw => raw->Object_0));
                assert(decreases_to!(*members => members@));
                assert(decreases_to!(members@ => members@[i as int]));
                assert(decreases_to!(members@[i as int] => members@[i as int].1));
                match value_from_json(&members[i].1) {
                    Ok(value) => {
                        condition = condition.with(members[i].0.clone(), value);
                    },
                    Err(e) => {
                        proof {
                            read_terms_fails(views, i + 1);
                        }
                        return Err(e);
                    },
                }
            }
            assert(views.take(views.len() as int) =~= views);
            Ok(condition)
        },
        other => {
            let shown = render(other);
            Err(
                ConditionError {
                    message: concat("a condition must be an object, got ", shown.as_str()),
                },
            )
        },
    }
}

/// Reads conditions out of JSON: an object is a condition, an array of objects
/// is OR, an array of scalars is any-of, and an object whose keys are all
/// `gte`/`gt`/`lte`/`lt` is a bound.
pub fn from_json(raw: &Json) -> (r: Result<Conditions, ConditionError>)
    ensures
        match r {
            Ok(conditions) => read_conditions(raw@) == Ok::<
                Seq<Seq<(Seq<char>, ValueView)>>,
                Seq<char>,
            >(condition_views(conditions@)),
            Err(e) => read_conditions(raw@) == Err::<Seq<Seq<(Seq<char>, ValueView)>>, Seq<char>>(
                e@,
            ),
        },
{
    let mut conditions: Vec<Condition> = Vec::new();
    assert(condition_views(conditions@) =~= Seq::empty());
    match raw {
        Json::Array(entries) => {
            let ghost views = entry_views(entries@);
            proof {
                entry_views_are(entries@);
            }
            for i in 0..entries.len()
                invariant
                    views == entry_views(entries@),
                    views.len() == entries@.len(),
                    forall|j: int|
                        0 <= j < entries@.len() ==> #[trigger] views[j] == entries@[j]@,
                    *raw == Json::Array(*entries),
                    read_all(views.take(i as int)) == Ok::<
                        Seq<Seq<(Seq<char>, ValueView)>>,
                        Seq<char>,
                    >(condition_views(conditions@)),
            {
                assert(views.take(i + 1).drop_last() =~= views.take(i as int));
                match object(&entries[i]) {
                    Ok(condition) => {
                        let ghost before = conditions@;
                        conditions.push(condition);
                        assert(condition_views(conditions@) =~= condition_views(before).push(
                            condition@,
                        ));
                    },
                    Err(e) => {
                        proof {
                            read_all_fails(views, i + 1);
                        }
                        return Err(e);
                    },
                }
            }
            assert(views.take(views.len() as int) =~= views);
            Ok(conditions)
        },
        other => match object(other) {
            Ok(condition) => {
                conditions.push(condition);
                assert(condition_views(conditions@) =~= seq![condition@]);
                Ok(conditions)
            },
            Err(e) => Err(e),
        },
    }
}

/// What a JSON value reads as in a condition: a flag, a text, a number and null as
/// themselves, an array as any of what its entries read as, and an object as a bound when
/// it has members and all are named as limits are, and as a condition otherwise.
pub proof fn law_a_value_reads_as_a_term(
    flag: bool,
    text: Seq<char>,
    number: Number,
    entries: Seq<JsonView>,
    members: Seq<(Seq<char>, JsonView)>,
)
    ensures
        read_value(JsonView::Bool(flag)) == Ok::<ValueView, Seq<char>>(ValueView::Bool(flag)),
        read_value(JsonView::Text(text)) == Ok::<ValueView, Seq<char>>(ValueView::Text(text)),
        read_value(JsonView::Null) == Ok::<ValueView, Seq<char>>(ValueView::Null),
        read_value(JsonView::Number { text, value: Some(number) }) == Ok::<ValueView, Seq<char>>(
            ValueView::Number(number),
        ),
        read_value(JsonView::Number { text, value: None }) == Err::<ValueView, Seq<char>>(
            text + " is not a finite number"@,
        ),
        read_value(JsonView::Array(entries)) matches Ok(value) ==> (
        value matches ValueView::AnyOf(values) && values.len() == entries.len() && forall|i: int|
            0 <= i < entries.len() ==> read_value(#[trigger] entries[i]) == Ok::<
                ValueView,
                Seq<char>,
            >(values[i])),
        read_value(JsonView::Object(members)) matches Ok(value) ==> ({
            let limits = members.len() > 0 && forall|i: int|
                0 <= i < members.len() ==> ((#[trigger] members[i]).0 == "gte"@ || members[i].0
                    == "gt"@ || members[i].0 == "lte"@ || members[i].0 == "lt"@);
            &&& (value is Bound) == limits
            &&& (value is Nested) == !limits
            &&& value matches ValueView::Nested(terms) ==> read_terms(members) == Ok::<
                Seq<(Seq<char>, ValueView)>,
                Seq<char>,
            >(terms)
            &&& value matches ValueView::Bound(bound) ==> read_bound(members) == Ok::<
                Bound,
                Seq<char>,
            >(bound)
        }),
{
    read_values_are(entries);
}

proof fn read_values_are(entries: Seq<JsonView>)
    ensures
        read_values(entries) matches Ok(values) ==> values.len() == entries.len() && forall|i: int|
            0 <= i < entries.len() ==> read_value(#[trigger] entries[i]) == Ok::<
                ValueView,
                Seq<char>,
            >(values[i]),
    decreases entries.len(),
{
    if entries.len() > 0 {
        let front = entries.drop_last();
        read_values_are(front);
        if let Ok(values) = read_values(entries) {
            assert forall|i: int| 0 <= i < entries.len() implies read_value(#[trigger] entries[i])
                == Ok::<ValueView, Seq<char>>(values[i]) by {
                if i < front.len() {
                    assert(front[i] == entries[i]);
                }
            }
        }
    }
}

/// A limit is read under its own name: `gte` is at least, `gt` above, `lte` at most and
/// `lt` below, and what is no number is refused by name.
pub proof fn law_a_limit_is_read_under_its_name(
    members: Seq<(Seq<char>, JsonView)>,
    bound: Bound,
    text: Seq<char>,
    limit: Number,
    name: Seq<char>,
    other: JsonView,
)
    requires
        read_bound(members) == Ok::<Bound, Seq<char>>(bound),
        other.as_number() is None,
    ensures
        read_bound(Seq::empty()) == Ok::<Bound, Seq<char>>(
            Bound { at_least: None, above: None, at_most: None, below: None },
        ),
        ({
            let number = JsonView::Number { text, value: Some(limit) };
            &&& read_bound(members.push(("gte"@, number))) == Ok::<Bound, Seq<char>>(
                Bound { at_least: Some(limit), ..bound },
            )
            &&& read_bound(members.push(("gt"@, number))) == Ok::<Bound, Seq<char>>(
                Bound { above: Some(limit), ..bound },
            )
            &&& read_bound(members.push(("lte"@, number))) == Ok::<Bound, Seq<char>>(
                Bound { at_most: Some(limit), ..bound },
            )
            &&& read_bound(members.push(("lt"@, number))) == Ok::<Bound, Seq<char>>(
                Bound { below: Some(limit), ..bound },
            )
        }),
        read_bound(members.push((name, other))) == Err::<Bound, Seq<char>>(
            "bound "@ + name + " must be a number, got "@ + rendered(other),
        ),
{
    reveal_strlit("gte");
    reveal_strlit("gt");
    reveal_strlit("lte");
    reveal_strlit("lt");
    let number = JsonView::Number { text, value: Some(limit) };
    assert("gte"@[0] != "lte"@[0] && "gt"@[0] != "lt"@[0]);
    assert("gte"@.len() == 3 && "gt"@.len() == 2 && "lte"@.len() == 3 && "lt"@.len() == 2);
    assert(members.push(("gte"@, number)).drop_last() =~= members);
    assert(members.push(("gt"@, number)).drop_last() =~= members);
    assert(members.push(("lte"@, number)).drop_last() =~= members);
    assert(members.push(("lt"@, number)).drop_last() =~= members);
    assert(members.push((name, other)).drop_last() =~= members);
}

/// The members of an object are read as the terms they are set to, one after another, and
/// the first that does not read is what is wrong with it.
pub proof fn law_members_are_read_one_after_another(
    members: Seq<(Seq<char>, JsonView)>,
    name: Seq<char>,
    json: JsonView,
)
    ensures
        read_terms(Seq::empty()) == Ok::<Seq<(Seq<char>, ValueView)>, Seq<char>>(Seq::empty()),
        read_terms(members) matches Err(wrong) ==> read_terms(members.push((name, json))) == Err::<
            Seq<(Seq<char>, ValueView)>,
            Seq<char>,
        >(wrong),
        read_terms(members) matches Ok(terms) ==> read_terms(members.push((name, json))) == (
        match read_value(json) {
            Ok(value) => Ok(inserted(terms, name, value)),
            Err(wrong) => Err(wrong),
        }),
{
    assert(members.push((name, json)).drop_last() =~= members);
}

/// An array is a list of conditions, each of which must be an object, and anything else
/// must be one condition.
pub proof fn law_conditions_are_objects(
    members: Seq<(Seq<char>, JsonView)>,
    entries: Seq<JsonView>,
    json: JsonView,
)
    ensures
        read_conditions(JsonView::Object(members)) == (match read_terms(members) {
            Ok(terms) => Ok::<Seq<Seq<(Seq<char>, ValueView)>>, Seq<char>>(seq![terms]),
            Err(wrong) => Err(wrong),
        }),
        read_conditions(JsonView::Array(Seq::empty())) == Ok::<
            Seq<Seq<(Seq<char>, ValueView)>>,
            Seq<char>,
        >(Seq::empty()),
        !(json is Object) && !(json is Array) ==> read_conditions(json) == Err::<
            Seq<Seq<(Seq<char>, ValueView)>>,
            Seq<char>,
        >("a condition must be an object, got "@ + rendered(json)),
        read_conditions(JsonView::Array(entries)) matches Ok(before) ==> {
            &&& !(json is Object) ==> read_conditions(JsonView::Array(entries.push(json))) == Err::<
                Seq<Seq<(Seq<char>, ValueView)>>,
                Seq<char>,
            >("a condition must be an object, got "@ + rendered(json))
            &&& read_terms(members) matches Ok(terms) ==> read_conditions(
                JsonView::Array(entries.push(JsonView::Object(members))),
            ) == Ok::<Seq<Seq<(Seq<char>, ValueView)>>, Seq<char>>(before.push(terms))
        },
{
    assert(entries.push(json).drop_last() =~= entries);
    assert(entries.push(JsonView::Object(members)).drop_last() =~= entries);
}

}
