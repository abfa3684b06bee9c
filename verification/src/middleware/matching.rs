//! Holding answers against conditions.

use vstd::prelude::*;

use crate::batch::firsts;
use crate::json::{Json, JsonView};
use crate::middleware::condition::{
    condition_views, value_views, value_views_are, Bound, Condition, ConditionError, Value,
    ValueView,
};
use crate::number::Number;
use crate::text::{
    debug, debug_text, same, same_but_case, same_ignoring_case, texts, texts_push,
};

verus! {

/// How many leaf constraints a term carries.
pub open spec fn leaves(value: ValueView) -> nat
    decreases value,
{
    match value {
        ValueView::Null => 0,
        ValueView::Bool(b) => if b {
            1
        } else {
            0
        },
        ValueView::AnyOf(entries) => leaves_of_any(entries),
        ValueView::Nested(terms) => leaves_of_terms(terms),
        ValueView::Bound(bound) => if bound == Bound::none() {
            0
        } else {
            1
        },
        _ => 1,
    }
}

pub open spec fn leaves_of_any(entries: Seq<ValueView>) -> nat
    decreases entries,
{
    if entries.len() == 0 {
        0
    } else {
        leaves_of_any(entries.drop_last()) + leaves(entries.last())
    }
}

pub open spec fn leaves_of_terms(terms: Seq<(Seq<char>, ValueView)>) -> nat
    decreases terms,
{
    if terms.len() == 0 {
        0
    } else {
        leaves_of_terms(terms.drop_last()) + leaves(terms.last().1)
    }
}

/// A count, held down to what a machine word has room for.
pub open spec fn capped(n: nat) -> usize {
    if n > usize::MAX {
        usize::MAX
    } else {
        n as usize
    }
}

fn add_capped(a: usize, b: usize, Ghost(x): Ghost<nat>, Ghost(y): Ghost<nat>) -> (r: usize)
    requires
        a == capped(x),
        b == capped(y),
    ensures
        r == capped(x + y),
{
    if a > usize::MAX - b {
        usize::MAX
    } else {
        a + b
    }
}

/// How many leaf constraints a term carries.
pub fn constraints(value: &Value) -> (r: usize)
    ensures
        r == capped(leaves(value@)),
    decreases *value,
{
    match value {
        Value::Null => 0,
        Value::Bool(b) => if *b {
            1
        } else {
            0
        },
        Value::AnyOf(entries) => {
            let ghost views = value_views(entries@);
            proof {
                value_views_are(entries@);
            }
            let mut total: usize = 0;
            for i in 0..entries.len()
                invariant
                    *value == Value::AnyOf(*entries),
                    views == value_views(entries@),
                    views.len() == entries@.len(),
                    forall|j: int|
                        0 <= j < entries@.len() ==> #[trigger] views[j] == entries@[j]@,
                    total == capped(leaves_of_any(views.take(i as int))),
            {
                assert(views.take(i + 1).drop_last() =~= views.take(i as int));
                assert(decreases_to!(*value => value->AnyOf_0));
                assert(decreases_to!(*entries => entries@));
                assert(decreases_to!(entries@ => entries@[i as int]));
                let more: usize = constraints(&entries[i]);
                total =
                add_capped(
                    total,
                    more,
                    Ghost(leaves_of_any(views.take(i as int))),
                    Ghost(leaves(views[i as int])),
                );
            }
            assert(views.take(views.len() as int) =~= views);
            total
        },
        Value::Nested(nested) => {
            assert(decreases_to!(*value => value->Nested_0));
            condition_constraints(nested)
        },
        Value::Bound(bound) => if bound.is_empty() {
            0
        } else {
            1
        },
        Value::Text(_) => 1,
        Value::Number(_) => 1,
    }
}

/// How many leaf constraints a condition carries.
pub fn condition_constraints(condition: &Condition) -> (r: usize)
    ensures
        r == capped(leaves_of_terms(condition@)),
    decreases *condition,
{
    let mut total: usize = 0;
    let count: usize = condition.len();
    for i in 0..count
        invariant
            count == condition@.len(),
            total == capped(leaves_of_terms(condition@.take(i as int))),
    {
        assert(condition@.take(i + 1).drop_last() =~= condition@.take(i as int));
        let (_, value) = condition.term(i);
        let more: usize = constraints(value);
        total =
        add_capped(
            total,
            more,
            Ghost(leaves_of_terms(condition@.take(i as int))),
            Ghost(leaves(condition@[i as int].1)),
        );
    }
    assert(condition@.take(condition@.len() as int) =~= condition@);
    total
}

/// The member of an answer that may be absent.
pub open spec fn member_got(got: Option<JsonView>, name: Seq<char>) -> Option<JsonView> {
    match got {
        Some(json) => json.member(name),
        None => None,
    }
}

/// Whether a term matches what an answer has for it. An absent member matches
/// nothing.
pub open spec fn value_matches(want: ValueView, got: Option<JsonView>) -> bool
    decreases want,
{
    match want {
        ValueView::AnyOf(entries) => any_matches(entries, got),
        ValueView::Nested(terms) => got is Some && terms_match(terms, got),
        ValueView::Bound(bound) => got matches Some(json) && json.as_number() matches Some(n)
            && bound.admits(n),
        ValueView::Text(text) => got matches Some(json) && json.as_text() matches Some(s)
            && same_but_case(s, text),
        ValueView::Bool(flag) => got matches Some(json) && json.as_bool() == Some(flag),
        ValueView::Number(number) => got matches Some(json) && json.as_number() matches Some(n)
            && n.equals(number),
        ValueView::Null => false,
    }
}

/// False and null are ignored wherever they stand.
pub open spec fn ignored(want: ValueView) -> bool {
    want == ValueView::Bool(false) || want == ValueView::Null
}

fn is_ignored(want: &Value) -> (r: bool)
    ensures
        r == ignored(want@),
{
    match want {
        Value::Bool(flag) => !*flag,
        Value::Null => true,
        _ => false,
    }
}

/// Whether any of these matches that is not ignored.
pub open spec fn any_matches(entries: Seq<ValueView>, got: Option<JsonView>) -> bool
    decreases entries,
{
    entries.len() > 0 && (any_matches(entries.drop_last(), got) || (!ignored(entries.last())
        && value_matches(entries.last(), got)))
}

/// Whether every term that constrains anything matches.
pub open spec fn terms_match(terms: Seq<(Seq<char>, ValueView)>, got: Option<JsonView>) -> bool
    decreases terms,
{
    terms.len() == 0 || (terms_match(terms.drop_last(), got) && (leaves(terms.last().1) == 0
        || value_matches(terms.last().1, member_got(got, terms.last().0))))
}

pub open spec fn got_view(got: Option<&Json>) -> Option<JsonView> {
    match got {
        Some(json) => Some(json@),
        None => None,
    }
}

fn matches_value(want: &Value, got: Option<&Json>) -> (r: bool)
    ensures
        r == value_matches(want@, got_view(got)),
    decreases *want,
{
    match want {
        Value::AnyOf(entries) => {
            let ghost views = value_views(entries@);
            proof {
                value_views_are(entries@);
            }
            for i in 0..entries.len()
                invariant
                    *want == Value::AnyOf(*entries),
                    views == value_views(entries@),
                    views.len() == entries@.len(),
                    forall|j: int|
                        0 <= j < entries@.len() ==> #[trigger] views[j] == entries@[j]@,
                    !any_matches(views.take(i as int), got_view(got)),
            {
                assert(views.take(i + 1).drop_last() =~= views.take(i as int));
                assert(decreases_to!(*want => want->AnyOf_0));
                assert(decreases_to!(*entries => entries@));
                assert(decreases_to!(entries@ => entries@[i as int]));
                if !is_ignored(&entries[i]) && matches_value(&entries[i], got) {
                    proof {
                        any_matches_one(views, got_view(got), i as int);
                    }
                    return true;
                }
            }
            assert(views.take(views.len() as int) =~= views);
            false
        },
        Value::Nested(nested) => {
            assert(decreases_to!(*want => want->Nested_0));
            got.is_some() && matches_object(nested, got)
        },
        Value::Bound(bound) => match got {
            Some(Json::Number(n)) => match n.value {
                Some(n) => bound.holds(n),
                None => false,
            },
            _ => false,
        },
        Value::Text(text) => match got {
            Some(Json::Text(s)) => same_ignoring_case(s.as_str(), text.as_str()),
            _ => false,
        },
        Value::Bool(flag) => match got {
            Some(Json::Bool(b)) => *b == *flag,
            _ => false,
        },
        Value::Number(number) => match got {
            Some(Json::Number(n)) => match n.value {
                Some(n) => n.same(number),
                None => false,
            },
            _ => false,
        },
        Value::Null => false,
    }
}

fn matches_object(condition: &Condition, got: Option<&Json>) -> (r: bool)
    ensures
        r == terms_match(condition@, got_view(got)),
    decreases *condition,
{
    let count: usize = condition.len();
    for i in 0..count
        invariant
            count == condition@.len(),
            terms_match(condition@.take(i as int), got_view(got)),
    {
        assert(condition@.take(i + 1).drop_last() =~= condition@.take(i as int));
        let (member, want) = condition.term(i);
        if constraints(want) != 0 {
            let inner = match got {
                Some(json) => json.get(member.as_str()),
                None => None,
            };
            if !matches_value(want, inner) {
                proof {
                    terms_match_all(condition@, got_view(got), i as int);
                }
                return false;
            }
        }
    }
    assert(condition@.take(condition@.len() as int) =~= condition@);
    true
}

proof fn any_matches_one(entries: Seq<ValueView>, got: Option<JsonView>, i: int)
    requires
        0 <= i < entries.len(),
    ensures
        !ignored(entries[i]) && value_matches(entries[i], got) ==> any_matches(entries, got),
    decreases entries.len(),
{
    if i < entries.len() - 1 {
        any_matches_one(entries.drop_last(), got, i);
    }
}

proof fn terms_match_all(terms: Seq<(Seq<char>, ValueView)>, got: Option<JsonView>, i: int)
    requires
        0 <= i < terms.len(),
    ensures
        terms_match(terms, got) ==> leaves(terms[i].1) == 0 || value_matches(
            terms[i].1,
            member_got(got, terms[i].0),
        ),
    decreases terms.len(),
{
    if i < terms.len() - 1 {
        terms_match_all(terms.drop_last(), got, i);
    }
}

/// Whether an answer satisfies any of the conditions.
pub open spec fn conditions_match(
    conditions: Seq<Seq<(Seq<char>, ValueView)>>,
    answer: JsonView,
) -> bool {
    exists|i: int|
        0 <= i < conditions.len() && terms_match(#[trigger] conditions[i], Some(answer))
}

/// Whether an answer satisfies any of the conditions, and should be blocked.
pub fn matches(conditions: &Vec<Condition>, answer: &Json) -> (r: bool)
    ensures
        r == conditions_match(condition_views(conditions@), answer@),
{
    let ghost views = condition_views(conditions@);
    for i in 0..conditions.len()
        invariant
            views == condition_views(conditions@),
            forall|j: int| 0 <= j < i ==> !terms_match(#[trigger] views[j], Some(answer@)),
    {
        if matches_object(&conditions[i], Some(answer)) {
            assert(terms_match(views[i as int], Some(answer@)));
            return true;
        }
    }
    false
}

/// The names that terms constrain and an answer does not have, added to those
/// found already, each of them once.
pub open spec fn missing_of_terms(
    terms: Seq<(Seq<char>, ValueView)>,
    answer: JsonView,
    found: Seq<Seq<char>>,
) -> Seq<Seq<char>>
    decreases terms.len(),
{
    if terms.len() == 0 {
        found
    } else {
        let before = missing_of_terms(terms.drop_last(), answer, found);
        let (name, value) = terms.last();
        if leaves(value) == 0 || before.contains(name) || answer.member(name) is Some {
            before
        } else {
            before.push(name)
        }
    }
}

pub open spec fn missing_of(
    conditions: Seq<Seq<(Seq<char>, ValueView)>>,
    answer: JsonView,
) -> Seq<Seq<char>>
    decreases conditions.len(),
{
    if conditions.len() == 0 {
        Seq::empty()
    } else {
        missing_of_terms(conditions.last(), answer, missing_of(conditions.drop_last(), answer))
    }
}

fn has_text(all: &Vec<String>, text: &str) -> (r: bool)
    ensures
        r == texts(all@).contains(text@),
{
    for i in 0..all.len()
        invariant
            forall|j: int| 0 <= j < i ==> #[trigger] texts(all@)[j] != text@,
    {
        if same(all[i].as_str(), text) {
            assert(texts(all@)[i as int] == text@);
            return true;
        }
    }
    false
}

/// The top-level members the conditions name that this answer does not have.
///
/// A member the plan does not have is absent rather than false, so a term naming
/// one can never match. Only top-level members are looked at: a detail object
/// that is there but empty is a real answer.
pub fn missing_members(conditions: &Vec<Condition>, answer: &Json) -> (r: Vec<String>)
    ensures
        texts(r@) == missing_of(condition_views(conditions@), answer@),
{
    let ghost views = condition_views(conditions@);
    let mut missing: Vec<String> = Vec::new();
    assert(texts(missing@) =~= Seq::empty());
    for i in 0..conditions.len()
        invariant
            views == condition_views(conditions@),
            texts(missing@) == missing_of(views.take(i as int), answer@),
    {
        let ghost found = texts(missing@);
        let one = &conditions[i];
        let count: usize = one.len();
        for k in 0..count
            invariant
                count == one@.len(),
                texts(missing@) == missing_of_terms(one@.take(k as int), answer@, found),
        {
            assert(one@.take(k + 1).drop_last() =~= one@.take(k as int));
            let (member, want) = one.term(k);
            if constraints(want) != 0 && !has_text(&missing, member.as_str()) {
                if answer.get(member.as_str()).is_none() {
                    let copy = member.clone();
                    proof {
                        texts_push(missing@, copy);
                    }
                    missing.push(copy);
                }
            }
        }
        assert(one@.take(one@.len() as int) =~= one@);
        assert(views.take(i + 1).drop_last() =~= views.take(i as int));
        assert(views.take(i + 1).last() == one@);
    }
    assert(views.take(views.len() as int) =~= views);
    missing
}

/// How a term that constrains nothing is shown.
pub open spec fn shown_value(value: ValueView) -> Seq<char>
    decreases value,
{
    match value {
        ValueView::Bool(b) => if b {
            "Bool(true)"@
        } else {
            "Bool(false)"@
        },
        ValueView::AnyOf(entries) => "AnyOf(["@ + shown_values(entries) + "])"@,
        ValueView::Bound(_) => "Bound(Bound { gte: None, gt: None, lte: None, lt: None })"@,
        ValueView::Nested(terms) => "Nested("@ + ("Condition({"@ + shown_terms(terms) + "})"@)
            + ")"@,
        _ => "Null"@,
    }
}

pub open spec fn shown_values(entries: Seq<ValueView>) -> Seq<char>
    decreases entries,
{
    if entries.len() == 0 {
        Seq::empty()
    } else {
        shown_values(entries.drop_last()) + (if entries.len() > 1 {
            ", "@
        } else {
            Seq::empty()
        }) + shown_value(entries.last())
    }
}

pub open spec fn shown_terms(terms: Seq<(Seq<char>, ValueView)>) -> Seq<char>
    decreases terms,
{
    if terms.len() == 0 {
        Seq::empty()
    } else {
        shown_terms(terms.drop_last()) + (if terms.len() > 1 {
            ", "@
        } else {
            Seq::empty()
        }) + debug_text(terms.last().0) + ": "@ + shown_value(terms.last().1)
    }
}

/// How a condition that constrains nothing is shown.
pub open spec fn shown(terms: Seq<(Seq<char>, ValueView)>) -> Seq<char> {
    "Condition({"@ + shown_terms(terms) + "})"@
}

proof fn no_leaves_of_any(entries: Seq<ValueView>, i: int)
    requires
        leaves_of_any(entries) == 0,
        0 <= i < entries.len(),
    ensures
        leaves(entries[i]) == 0,
    decreases entries.len(),
{
    if i < entries.len() - 1 {
        no_leaves_of_any(entries.drop_last(), i);
    }
}

proof fn no_leaves_of_terms(terms: Seq<(Seq<char>, ValueView)>, i: int)
    requires
        leaves_of_terms(terms) == 0,
        0 <= i < terms.len(),
    ensures
        leaves(terms[i].1) == 0,
    decreases terms.len(),
{
    if i < terms.len() - 1 {
        no_leaves_of_terms(terms.drop_last(), i);
    }
}

/// Shows a term that constrains nothing.
fn show_value(value: &Value) -> (r: String)
    requires
        leaves(value@) == 0,
    ensures
        r@ == shown_value(value@),
    decreases *value,
{
    match value {
        Value::Bool(_) => "Bool(false)".to_owned(),
        Value::AnyOf(entries) => {
            let ghost views = value_views(entries@);
            proof {
                value_views_are(entries@);
            }
            let mut r = "AnyOf([".to_owned();
            for i in 0..entries.len()
                invariant
                    *value == Value::AnyOf(*entries),
                    views == value_views(entries@),
                    views.len() == entries@.len(),
                    leaves_of_any(views) == 0,
                    forall|j: int|
                        0 <= j < entries@.len() ==> #[trigger] views[j] == entries@[j]@,
                    r@ == "AnyOf(["@ + shown_values(views.take(i as int)),
            {
                assert(views.take(i + 1).drop_last() =~= views.take(i as int));
                assert(decreases_to!(*value => value->AnyOf_0));
                assert(decreases_to!(*entries => entries@));
                assert(decreases_to!(entries@ => entries@[i as int]));
                proof {
                    no_leaves_of_any(views, i as int);
                }
                if i > 0 {
                    r.append(", ");
                }
                r.append(show_value(&entries[i]).as_str());
                assert(r@ =~= "AnyOf(["@ + shown_values(views.take(i + 1)));
            }
            assert(views.take(views.len() as int) =~= views);
            r.append("])");
            r
        },
        Value::Bound(_) => {
            "Bound(Bound { gte: None, gt: None, lte: None, lt: None })".to_owned()
        },
        Value::Nested(nested) => {
            assert(decreases_to!(*value => value->Nested_0));
            let mut r = "Nested(".to_owned();
            r.append(show(nested).as_str());
            r.append(")");
            r
        },
        _ => "Null".to_owned(),
    }
}

/// Shows a condition that constrains nothing.
fn show(condition: &Condition) -> (r: String)
    requires
        leaves_of_terms(condition@) == 0,
    ensures
        r@ == shown(condition@),
    decreases *condition,
{
    let mut r = "Condition({".to_owned();
    let count: usize = condition.len();
    for i in 0..count
        invariant
            count == condition@.len(),
            leaves_of_terms(condition@) == 0,
            r@ == "Condition({"@ + shown_terms(condition@.take(i as int)),
    {
        assert(condition@.take(i + 1).drop_last() =~= condition@.take(i as int));
        proof {
            no_leaves_of_terms(condition@, i as int);
        }
        let (member, value) = condition.term(i);
        if i > 0 {
            r.append(", ");
        }
        r.append(debug(member.as_str()).as_str());
        r.append(": ");
        r.append(show_value(value).as_str());
        assert(r@ =~= "Condition({"@ + shown_terms(condition@.take(i + 1)));
    }
    assert(condition@.take(condition@.len() as int) =~= condition@);
    r.append("})");
    r
}

/// What is wrong with a condition that constrains nothing.
pub open spec fn constrains_nothing(shown: Seq<char>) -> Seq<char> {
    "block condition "@ + shown
        + " constrains nothing, which would block every request; a member set to false or null is ignored, so state the positive signals you act on"@
}

/// Says of a condition, shown as a text, that it constrains nothing.
pub fn refuse(shown: &str) -> (r: ConditionError)
    ensures
        r@ == constrains_nothing(shown@),
{
    let mut message = "block condition ".to_owned();
    message.append(shown);
    message.append(
        " constrains nothing, which would block every request; a member set to false or null is ignored, so state the positive signals you act on",
    );
    ConditionError { message }
}

/// Refuses a condition that constrains nothing.
///
/// With false ignored, a condition may have no term left to satisfy, and would
/// match every answer.
pub fn validate(conditions: &Vec<Condition>) -> (r: Result<(), ConditionError>)
    ensures
        match r {
            Ok(_) => forall|i: int|
                0 <= i < conditions@.len() ==> leaves_of_terms((#[trigger] conditions@[i])@) > 0,
            Err(e) => exists|i: int|
                0 <= i < conditions@.len() && leaves_of_terms((#[trigger] conditions@[i])@) == 0
                    && e@ == constrains_nothing(shown(conditions@[i]@)) && forall|j: int|
                    0 <= j < i ==> leaves_of_terms((#[trigger] conditions@[j])@) > 0,
        },
{
    for i in 0..conditions.len()
        invariant
            forall|j: int| 0 <= j < i ==> leaves_of_terms((#[trigger] conditions@[j])@) > 0,
    {
        if condition_constraints(&conditions[i]) == 0 {
            let shown = show(&conditions[i]);
            return Err(refuse(shown.as_str()));
        }
    }
    Ok(())
}

/// A term that an answer has nothing for matches nothing.
pub proof fn law_absent_matches_nothing(want: ValueView)
    ensures
        !value_matches(want, None),
    decreases want,
{
    match want {
        ValueView::AnyOf(entries) => {
            absent_matches_none_of(entries);
        },
        _ => {},
    }
}

proof fn absent_matches_none_of(entries: Seq<ValueView>)
    ensures
        !any_matches(entries, None),
    decreases entries,
{
    if entries.len() > 0 {
        absent_matches_none_of(entries.drop_last());
        law_absent_matches_nothing(entries.last());
    }
}

/// The terms of a condition are AND: it matches exactly when each of its terms
/// constrains nothing or matches.
pub proof fn law_terms_are_and(terms: Seq<(Seq<char>, ValueView)>, got: Option<JsonView>)
    ensures
        terms_match(terms, got) == (forall|i: int|
            0 <= i < terms.len() ==> leaves((#[trigger] terms[i]).1) == 0 || value_matches(
                terms[i].1,
                member_got(got, terms[i].0),
            )),
    decreases terms.len(),
{
    if terms.len() > 0 {
        let before = terms.drop_last();
        law_terms_are_and(before, got);
        if terms_match(terms, got) {
            assert forall|i: int| 0 <= i < terms.len() implies leaves((#[trigger] terms[i]).1) == 0
                || value_matches(terms[i].1, member_got(got, terms[i].0)) by {
                terms_match_all(terms, got, i);
            }
        } else if forall|i: int|
            0 <= i < terms.len() ==> leaves((#[trigger] terms[i]).1) == 0 || value_matches(
                terms[i].1,
                member_got(got, terms[i].0),
            ) {
            assert forall|i: int| 0 <= i < before.len() implies leaves((#[trigger] before[i]).1)
                == 0 || value_matches(before[i].1, member_got(got, before[i].0)) by {
                assert(before[i] == terms[i]);
            }
            assert(terms[terms.len() - 1] == terms.last());
        }
    }
}

/// A list within a term is any-of: it matches exactly when one of its entries
/// matches that is neither false nor null.
pub proof fn law_a_list_within_a_term_is_any_of(entries: Seq<ValueView>, got: Option<JsonView>)
    ensures
        value_matches(ValueView::AnyOf(entries), got) == (exists|i: int|
            0 <= i < entries.len() && !ignored(#[trigger] entries[i]) && value_matches(
                entries[i],
                got,
            )),
    decreases entries.len(),
{
    if entries.len() > 0 {
        let before = entries.drop_last();
        law_a_list_within_a_term_is_any_of(before, got);
        if any_matches(before, got) {
            let i = choose|i: int|
                0 <= i < before.len() && !ignored(#[trigger] before[i]) && value_matches(
                    before[i],
                    got,
                );
            assert(entries[i] == before[i]);
        }
        if exists|i: int|
            0 <= i < entries.len() && !ignored(#[trigger] entries[i]) && value_matches(
                entries[i],
                got,
            ) {
            let i = choose|i: int|
                0 <= i < entries.len() && !ignored(#[trigger] entries[i]) && value_matches(
                    entries[i],
                    got,
                );
            any_matches_one(entries, got, i);
        }
        assert(entries.last() == entries[entries.len() - 1]);
    }
}

/// A list of conditions is OR: it matches exactly when one of two parts of it
/// does.
pub proof fn law_a_list_of_conditions_is_or(
    a: Seq<Seq<(Seq<char>, ValueView)>>,
    b: Seq<Seq<(Seq<char>, ValueView)>>,
    answer: JsonView,
)
    ensures
        conditions_match(a + b, answer) == (conditions_match(a, answer) || conditions_match(
            b,
            answer,
        )),
{
    let both = a + b;
    if conditions_match(both, answer) {
        let i = choose|i: int|
            0 <= i < both.len() && terms_match(#[trigger] both[i], Some(answer));
        if i < a.len() {
            assert(terms_match(a[i], Some(answer)));
        } else {
            assert(terms_match(b[i - a.len()], Some(answer)));
        }
    }
    if conditions_match(a, answer) {
        let i = choose|i: int| 0 <= i < a.len() && terms_match(#[trigger] a[i], Some(answer));
        assert(terms_match(both[i], Some(answer)));
    }
    if conditions_match(b, answer) {
        let i = choose|i: int| 0 <= i < b.len() && terms_match(#[trigger] b[i], Some(answer));
        assert(terms_match(both[i + a.len()], Some(answer)));
    }
}

/// False and null are ignored: as a term they change nothing about what a
/// condition matches, and as an entry nothing about what a list matches.
pub proof fn law_false_and_null_are_ignored(
    terms: Seq<(Seq<char>, ValueView)>,
    name: Seq<char>,
    entries: Seq<ValueView>,
    got: Option<JsonView>,
)
    ensures
        terms_match(terms.push((name, ValueView::Bool(false))), got) == terms_match(terms, got),
        terms_match(terms.push((name, ValueView::Null)), got) == terms_match(terms, got),
        any_matches(entries.push(ValueView::Bool(false)), got) == any_matches(entries, got),
        any_matches(entries.push(ValueView::Null), got) == any_matches(entries, got),
{
    assert(terms.push((name, ValueView::Bool(false))).drop_last() =~= terms);
    assert(terms.push((name, ValueView::Null)).drop_last() =~= terms);
    assert(entries.push(ValueView::Bool(false)).drop_last() =~= entries);
    assert(entries.push(ValueView::Null).drop_last() =~= entries);
}

/// Whether a term takes whatever is served, and only its absence fails it: a
/// nested condition that constrains nothing, or a list that holds one.
pub open spec fn takes_anything(want: ValueView) -> bool
    decreases want,
{
    match want {
        ValueView::Nested(terms) => leaves_of_terms(terms) == 0,
        ValueView::AnyOf(entries) => any_takes_anything(entries),
        _ => false,
    }
}

pub open spec fn any_takes_anything(entries: Seq<ValueView>) -> bool
    decreases entries,
{
    entries.len() > 0 && (any_takes_anything(entries.drop_last()) || takes_anything(
        entries.last(),
    ))
}

/// A term that takes whatever is served matches whatever is served.
pub proof fn law_what_takes_anything_matches_it(want: ValueView, served: JsonView)
    requires
        takes_anything(want),
    ensures
        value_matches(want, Some(served)),
    decreases want,
{
    match want {
        ValueView::AnyOf(entries) => {
            some_entry_takes_anything(entries, served);
        },
        ValueView::Nested(terms) => {
            law_no_constraint_matches_everything(terms, served);
        },
        _ => {},
    }
}

proof fn some_entry_takes_anything(entries: Seq<ValueView>, served: JsonView)
    requires
        any_takes_anything(entries),
    ensures
        any_matches(entries, Some(served)),
    decreases entries,
{
    if any_takes_anything(entries.drop_last()) {
        some_entry_takes_anything(entries.drop_last(), served);
    } else {
        law_what_takes_anything_matches_it(entries.last(), served);
    }
}

/// A flag that is served as false is matched by no flag, text, number or bound,
/// nor by a list of them: only what takes whatever is served matches it. A flag
/// wanted as false constrains nothing, so nothing is held against it.
pub proof fn law_a_served_false_matches_nothing(want: ValueView)
    requires
        !ignored(want),
    ensures
        value_matches(want, Some(JsonView::Bool(false))) == takes_anything(want),
    decreases want,
{
    match want {
        ValueView::AnyOf(entries) => {
            served_false_matches_none_of(entries);
        },
        ValueView::Nested(terms) => {
            if leaves_of_terms(terms) > 0 {
                let i = some_leaf(terms);
                law_an_unserved_member_never_matches(terms, JsonView::Bool(false), i);
            } else {
                law_no_constraint_matches_everything(terms, JsonView::Bool(false));
            }
        },
        _ => {},
    }
}

proof fn served_false_matches_none_of(entries: Seq<ValueView>)
    ensures
        any_matches(entries, Some(JsonView::Bool(false))) == any_takes_anything(entries),
    decreases entries,
{
    if entries.len() > 0 {
        served_false_matches_none_of(entries.drop_last());
        if !ignored(entries.last()) {
            law_a_served_false_matches_nothing(entries.last());
        } else {
            assert(!takes_anything(entries.last()));
        }
    }
}

/// There is no way to block when a flag is false: a condition, at whatever depth
/// it stands, that constrains a member served as false does not match, unless
/// what it wants of that member takes whatever is served.
pub proof fn law_nothing_is_blocked_for_being_false(
    terms: Seq<(Seq<char>, ValueView)>,
    got: Option<JsonView>,
    i: int,
)
    requires
        0 <= i < terms.len(),
        leaves(terms[i].1) > 0,
        !takes_anything(terms[i].1),
        member_got(got, terms[i].0) == Some(JsonView::Bool(false)),
    ensures
        !terms_match(terms, got),
{
    terms_match_all(terms, got, i);
    law_a_served_false_matches_nothing(terms[i].1);
}

/// A condition that constrains a member the answer does not have does not match,
/// whatever its other terms are.
pub proof fn law_an_unserved_member_never_matches(
    terms: Seq<(Seq<char>, ValueView)>,
    answer: JsonView,
    i: int,
)
    requires
        0 <= i < terms.len(),
        leaves(terms[i].1) > 0,
        answer.member(terms[i].0) is None,
    ensures
        !terms_match(terms, Some(answer)),
{
    terms_match_all(terms, Some(answer), i);
    law_absent_matches_nothing(terms[i].1);
}

/// A condition that constrains something does not match an answer that has
/// nothing.
pub proof fn law_a_constraint_never_matches_nothing(
    terms: Seq<(Seq<char>, ValueView)>,
    answer: JsonView,
)
    requires
        leaves_of_terms(terms) > 0,
        forall|name: Seq<char>| #[trigger] answer.member(name) is None,
    ensures
        !terms_match(terms, Some(answer)),
{
    let i = some_leaf(terms);
    assert(answer.member(terms[i].0) is None);
    law_an_unserved_member_never_matches(terms, answer, i);
}

/// A condition that constrains nothing matches every answer, which is why it is
/// refused.
pub proof fn law_no_constraint_matches_everything(
    terms: Seq<(Seq<char>, ValueView)>,
    answer: JsonView,
)
    requires
        leaves_of_terms(terms) == 0,
    ensures
        terms_match(terms, Some(answer)),
    decreases terms.len(),
{
    if terms.len() > 0 {
        law_no_constraint_matches_everything(terms.drop_last(), answer);
    }
}

proof fn some_leaf(terms: Seq<(Seq<char>, ValueView)>) -> (i: int)
    requires
        leaves_of_terms(terms) > 0,
    ensures
        0 <= i < terms.len(),
        leaves(terms[i].1) > 0,
    decreases terms.len(),
{
    if leaves(terms.last().1) > 0 {
        terms.len() - 1
    } else {
        some_leaf(terms.drop_last())
    }
}

/// A text matches without case: what differs in ASCII case only matches alike.
pub proof fn law_a_text_matches_without_case(a: Seq<char>, b: Seq<char>, got: Option<JsonView>)
    requires
        same_but_case(a, b),
    ensures
        value_matches(ValueView::Text(a), got) == value_matches(ValueView::Text(b), got),
{
}

spec fn names_missing(
    terms: Seq<(Seq<char>, ValueView)>,
    answer: JsonView,
    name: Seq<char>,
) -> bool {
    exists|k: int|
        0 <= k < terms.len() && (#[trigger] terms[k]).0 == name && leaves(terms[k].1) > 0
            && answer.member(name) is None
}

proof fn missing_of_terms_is(
    terms: Seq<(Seq<char>, ValueView)>,
    answer: JsonView,
    found: Seq<Seq<char>>,
    name: Seq<char>,
)
    requires
        found.no_duplicates(),
    ensures
        missing_of_terms(terms, answer, found).no_duplicates(),
        missing_of_terms(terms, answer, found).contains(name) == (found.contains(name)
            || names_missing(terms, answer, name)),
    decreases terms.len(),
{
    if terms.len() > 0 {
        let front = terms.drop_last();
        let before = missing_of_terms(front, answer, found);
        let after = missing_of_terms(terms, answer, found);
        let last = terms.last();
        missing_of_terms_is(front, answer, found, name);
        missing_of_terms_is(front, answer, found, last.0);
        if names_missing(front, answer, name) {
            let k = choose|k: int|
                0 <= k < front.len() && (#[trigger] front[k]).0 == name && leaves(front[k].1) > 0
                    && answer.member(name) is None;
            assert(terms[k].0 == name);
        }
        if names_missing(terms, answer, name) {
            let k = choose|k: int|
                0 <= k < terms.len() && (#[trigger] terms[k]).0 == name && leaves(terms[k].1) > 0
                    && answer.member(name) is None;
            if k < front.len() {
                assert(front[k].0 == name);
            }
        }
        if after != before {
            assert(after == before.push(last.0));
            assert(after[after.len() - 1] == last.0);
            assert(terms[terms.len() - 1] == last);
            if before.contains(name) {
                let k = choose|k: int| 0 <= k < before.len() && before[k] == name;
                assert(after[k] == name);
            }
        }
    }
}

/// A member is reported missing exactly when some condition constrains it and
/// the answer does not have it, and it is reported once.
pub proof fn law_missing_is_what_is_constrained_and_unserved(
    conditions: Seq<Seq<(Seq<char>, ValueView)>>,
    answer: JsonView,
    name: Seq<char>,
)
    ensures
        missing_of(conditions, answer).no_duplicates(),
        missing_of(conditions, answer).contains(name) == (answer.member(name) is None && exists|
            i: int,
            k: int,
        |
            0 <= i < conditions.len() && 0 <= k < conditions[i].len()
                && (#[trigger] conditions[i][k]).0 == name && leaves(conditions[i][k].1) > 0),
    decreases conditions.len(),
{
    if conditions.len() > 0 {
        let front = conditions.drop_last();
        law_missing_is_what_is_constrained_and_unserved(front, answer, name);
        missing_of_terms_is(conditions.last(), answer, missing_of(front, answer), name);
        if exists|i: int, k: int|
            0 <= i < front.len() && 0 <= k < front[i].len() && (#[trigger] front[i][k]).0 == name
                && leaves(front[i][k].1) > 0 {
            let (i, k) = choose|i: int, k: int|
                0 <= i < front.len() && 0 <= k < front[i].len() && (#[trigger] front[i][k]).0
                    == name && leaves(front[i][k].1) > 0;
            assert(conditions[i][k].0 == name);
        }
        if names_missing(conditions.last(), answer, name) {
            let k = choose|k: int|
                0 <= k < conditions.last().len() && (#[trigger] conditions.last()[k]).0 == name
                    && leaves(conditions.last()[k].1) > 0 && answer.member(name) is None;
            assert(conditions[conditions.len() - 1][k].0 == name);
        }
        if exists|i: int, k: int|
            0 <= i < conditions.len() && 0 <= k < conditions[i].len()
                && (#[trigger] conditions[i][k]).0 == name && leaves(conditions[i][k].1) > 0 {
            let (i, k) = choose|i: int, k: int|
                0 <= i < conditions.len() && 0 <= k < conditions[i].len()
                    && (#[trigger] conditions[i][k]).0 == name && leaves(conditions[i][k].1) > 0;
            if i < front.len() {
                assert(front[i][k].0 == name);
            } else {
                assert(conditions.last()[k].0 == name);
            }
        }
    }
}

/// The members the terms of a condition constrain that the answer does not have,
/// as often and in the order they are named.
pub open spec fn wanting_of_terms(
    terms: Seq<(Seq<char>, ValueView)>,
    answer: JsonView,
) -> Seq<Seq<char>>
    decreases terms.len(),
{
    if terms.len() == 0 {
        Seq::empty()
    } else {
        let before = wanting_of_terms(terms.drop_last(), answer);
        if leaves(terms.last().1) == 0 || answer.member(terms.last().0) is Some {
            before
        } else {
            before.push(terms.last().0)
        }
    }
}

/// The same of a list of conditions, one after another.
pub open spec fn wanting(
    conditions: Seq<Seq<(Seq<char>, ValueView)>>,
    answer: JsonView,
) -> Seq<Seq<char>>
    decreases conditions.len(),
{
    if conditions.len() == 0 {
        Seq::empty()
    } else {
        wanting(conditions.drop_last(), answer) + wanting_of_terms(conditions.last(), answer)
    }
}

proof fn missing_of_terms_in_order(
    terms: Seq<(Seq<char>, ValueView)>,
    answer: JsonView,
    named: Seq<Seq<char>>,
)
    ensures
        missing_of_terms(terms, answer, firsts(named)) == firsts(
            named + wanting_of_terms(terms, answer),
        ),
    decreases terms.len(),
{
    if terms.len() == 0 {
        assert(named + wanting_of_terms(terms, answer) =~= named);
    } else {
        let front = terms.drop_last();
        missing_of_terms_in_order(front, answer, named);
        let before = named + wanting_of_terms(front, answer);
        if leaves(terms.last().1) > 0 && answer.member(terms.last().0) is None {
            let after = named + wanting_of_terms(terms, answer);
            assert(after =~= before.push(terms.last().0));
            assert(after.drop_last() =~= before);
        }
    }
}

/// Missing members are reported in the order they are first named.
pub proof fn law_missing_is_in_the_order_named(
    conditions: Seq<Seq<(Seq<char>, ValueView)>>,
    answer: JsonView,
)
    ensures
        missing_of(conditions, answer) == firsts(wanting(conditions, answer)),
    decreases conditions.len(),
{
    if conditions.len() > 0 {
        let front = conditions.drop_last();
        law_missing_is_in_the_order_named(front, answer);
        missing_of_terms_in_order(conditions.last(), answer, wanting(front, answer));
    }
}

/// What each kind of term matches: a flag the flag that is served, a text the text that
/// is served whatever its case, a number the number that is served, a bound a served
/// number within all its limits, and a condition what has the members it wants. None of
/// them matches a value of another kind, nor one that is absent.
pub proof fn law_what_a_term_matches(
    flag: bool,
    text: Seq<char>,
    number: Number,
    bound: Bound,
    terms: Seq<(Seq<char>, ValueView)>,
    got: Option<JsonView>,
)
    ensures
        value_matches(ValueView::Bool(flag), got) == (got == Some(JsonView::Bool(flag))),
        value_matches(ValueView::Text(text), got) == (got matches Some(JsonView::Text(s))
            && same_but_case(s, text)),
        value_matches(ValueView::Number(number), got) == (got matches Some(
            JsonView::Number { value: Some(n), .. },
        ) && n.equals(number)),
        value_matches(ValueView::Bound(bound), got) == (got matches Some(
            JsonView::Number { value: Some(n), .. },
        ) && (bound.at_least matches Some(b) ==> n.ge(b)) && (bound.above matches Some(b) ==> n.gt(b))
            && (bound.at_most matches Some(b) ==> b.ge(n)) && (bound.below matches Some(b) ==> b.gt(
            n,
        ))),
        value_matches(ValueView::Nested(terms), got) == (got is Some && terms_match(terms, got)),
        !value_matches(ValueView::Null, got),
{
}

/// What constrains an answer: a flag that is true, a text, a number, a bound with a
/// limit, and what stands within a list or a condition. False, null and a bound without
/// limits constrain nothing.
pub proof fn law_what_constrains(
    text: Seq<char>,
    number: Number,
    bound: Bound,
    entries: Seq<ValueView>,
    terms: Seq<(Seq<char>, ValueView)>,
    name: Seq<char>,
    value: ValueView,
)
    ensures
        leaves(ValueView::Bool(true)) == 1,
        leaves(ValueView::Bool(false)) == 0,
        leaves(ValueView::Null) == 0,
        leaves(ValueView::Text(text)) == 1,
        leaves(ValueView::Number(number)) == 1,
        leaves(ValueView::Bound(bound)) == (if bound.at_least is None && bound.above is None
            && bound.at_most is None && bound.below is None {
            0nat
        } else {
            1nat
        }),
        leaves(ValueView::AnyOf(Seq::empty())) == 0,
        leaves(ValueView::AnyOf(entries.push(value))) == leaves(ValueView::AnyOf(entries)) + leaves(
            value,
        ),
        leaves(ValueView::Nested(Seq::empty())) == 0,
        leaves(ValueView::Nested(terms.push((name, value)))) == leaves(ValueView::Nested(terms))
            + leaves(value),
        leaves(ValueView::Nested(terms)) == leaves_of_terms(terms),
{
    assert(entries.push(value).drop_last() =~= entries);
    assert(terms.push((name, value)).drop_last() =~= terms);
}

/// A condition of one flag matches exactly the answers that serve that flag as true, and
/// two flags those that serve both.
pub proof fn law_a_flag_is_matched_by_itself(
    name: Seq<char>,
    other: Seq<char>,
    answer: JsonView,
)
    ensures
        terms_match(seq![(name, ValueView::Bool(true))], Some(answer)) == (answer.member(name)
            == Some(JsonView::Bool(true))),
        terms_match(
            seq![(name, ValueView::Bool(true)), (other, ValueView::Bool(true))],
            Some(answer),
        ) == (answer.member(name) == Some(JsonView::Bool(true)) && answer.member(other) == Some(
            JsonView::Bool(true),
        )),
        conditions_match(
            seq![seq![(name, ValueView::Bool(true))], seq![(other, ValueView::Bool(true))]],
            answer,
        ) == (answer.member(name) == Some(JsonView::Bool(true)) || answer.member(other) == Some(
            JsonView::Bool(true),
        )),
        conditions_match(seq![seq![(name, ValueView::Bool(true))]], answer) == (answer.member(name)
            == Some(JsonView::Bool(true))),
        !conditions_match(Seq::empty(), answer),
{
    let one = seq![(name, ValueView::Bool(true))];
    let two = seq![(name, ValueView::Bool(true)), (other, ValueView::Bool(true))];
    let second = seq![(other, ValueView::Bool(true))];
    assert(one.drop_last() =~= Seq::empty());
    assert(second.drop_last() =~= Seq::empty());
    assert(two.drop_last() =~= one);
    reveal_with_fuel(terms_match, 3);
    assert(terms_match(one, Some(answer)) == (answer.member(name) == Some(JsonView::Bool(true))));
    assert(terms_match(second, Some(answer)) == (answer.member(other) == Some(
        JsonView::Bool(true),
    )));
    let both = seq![one, second];
    if terms_match(one, Some(answer)) {
        assert(terms_match(both[0], Some(answer)));
        assert(terms_match(seq![one][0], Some(answer)));
    }
    if terms_match(second, Some(answer)) {
        assert(terms_match(both[1], Some(answer)));
    }
}

/// A member is looked for in what is served, and in nothing when nothing is.
pub proof fn law_a_member_is_looked_for_in_what_is_served(answer: JsonView, name: Seq<char>)
    ensures
        member_got(Some(answer), name) == answer.member(name),
        member_got(None, name) is None,
{
}

/// A condition that constrains nothing is refused in words that show it.
pub proof fn law_a_refused_condition_is_shown(shown: Seq<char>)
    ensures
        constrains_nothing(shown) == "block condition "@ + shown
            + " constrains nothing, which would block every request; a member set to false or null is ignored, so state the positive signals you act on"@,
{
}

/// How a condition that constrains nothing is shown: its members in order, each with its
/// name and what is wanted of it.
pub proof fn law_how_a_condition_is_shown(
    terms: Seq<(Seq<char>, ValueView)>,
    name: Seq<char>,
    value: ValueView,
    entries: Seq<ValueView>,
    bound: Bound,
)
    ensures
        shown(terms) == "Condition({"@ + shown_terms(terms) + "})"@,
        shown_terms(Seq::empty()) == Seq::<char>::empty(),
        shown_terms(seq![(name, value)]) == debug_text(name) + ": "@ + shown_value(value),
        terms.len() > 0 ==> shown_terms(terms.push((name, value))) == shown_terms(terms) + ", "@
            + debug_text(name) + ": "@ + shown_value(value),
        shown_value(ValueView::Bool(false)) == "Bool(false)"@,
        shown_value(ValueView::Bool(true)) == "Bool(true)"@,
        shown_value(ValueView::Null) == "Null"@,
        shown_value(ValueView::Bound(bound))
            == "Bound(Bound { gte: None, gt: None, lte: None, lt: None })"@,
        shown_value(ValueView::Nested(terms)) == "Nested("@ + shown(terms) + ")"@,
        shown_value(ValueView::AnyOf(Seq::empty())) == "AnyOf(["@ + Seq::<char>::empty() + "])"@,
        shown_value(ValueView::AnyOf(seq![value])) == "AnyOf(["@ + shown_value(value) + "])"@,
        shown_values(entries.push(value)) == shown_values(entries) + (if entries.len() > 0 {
            ", "@
        } else {
            Seq::empty()
        }) + shown_value(value),
{
    let one = seq![(name, value)];
    assert(one.drop_last() =~= Seq::empty());
    assert(shown_terms(one.drop_last()) =~= Seq::empty());
    assert(shown_terms(one) =~= debug_text(name) + ": "@ + shown_value(value));
    assert(terms.push((name, value)).drop_last() =~= terms);
    assert(entries.push(value).drop_last() =~= entries);
    let alone = seq![value];
    assert(alone.drop_last() =~= Seq::empty());
    assert(shown_values(alone.drop_last()) =~= Seq::empty());
    assert(shown_values(alone) =~= shown_value(value));
}

/// Constraints are counted as they are, as far as a machine word has room.
pub proof fn law_constraints_are_counted_as_they_are(n: nat)
    ensures
        n <= usize::MAX ==> capped(n) == n,
        n > usize::MAX ==> capped(n) == usize::MAX,
{
}

}
