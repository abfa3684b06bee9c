//! What to block on, written in the shape of an answer.

use indexmap::IndexMap;
use vstd::prelude::*;

use crate::index::{
    entry_at, entry_at_finds, get_place, insert_place, inserted, name_at, new_places, places,
};
use crate::number::{integer, Number};
use crate::text::{concat, same};

verus! {

/// A numeric bound, or a range when several are given. Every bound given must
/// hold, and an answer that is not a number satisfies none of them.
#[derive(Clone, Copy, Debug, PartialEq)]
pub struct Bound {
    pub at_least: Option<Number>,
    pub above: Option<Number>,
    pub at_most: Option<Number>,
    pub below: Option<Number>,
}

impl Bound {
    /// A bound that bounds nothing.
    pub open spec fn none() -> Bound {
        Bound { at_least: None, above: None, at_most: None, below: None }
    }

    /// Whether a number is within every bound given.
    pub open spec fn admits(self, got: Number) -> bool {
        &&& self.at_least matches Some(b) ==> got.ge(b)
        &&& self.above matches Some(b) ==> got.gt(b)
        &&& self.at_most matches Some(b) ==> b.ge(got)
        &&& self.below matches Some(b) ==> b.gt(got)
    }

    pub fn gte(value: Number) -> (r: Self)
        ensures
            r == (Bound { at_least: Some(value), ..Bound::none() }),
    {
        Bound { at_least: Some(value), above: None, at_most: None, below: None }
    }

    pub fn gt(value: Number) -> (r: Self)
        ensures
            r == (Bound { above: Some(value), ..Bound::none() }),
    {
        Bound { at_least: None, above: Some(value), at_most: None, below: None }
    }

    pub fn lte(value: Number) -> (r: Self)
        ensures
            r == (Bound { at_most: Some(value), ..Bound::none() }),
    {
        Bound { at_least: None, above: None, at_most: Some(value), below: None }
    }

    pub fn lt(value: Number) -> (r: Self)
        ensures
            r == (Bound { below: Some(value), ..Bound::none() }),
    {
        Bound { at_least: None, above: None, at_most: None, below: Some(value) }
    }

    pub fn and_gte(self, value: Number) -> (r: Self)
        ensures
            r == (Bound { at_least: Some(value), ..self }),
    {
        Bound { at_least: Some(value), ..self }
    }

    pub fn and_gt(self, value: Number) -> (r: Self)
        ensures
            r == (Bound { above: Some(value), ..self }),
    {
        Bound { above: Some(value), ..self }
    }

    pub fn and_lte(self, value: Number) -> (r: Self)
        ensures
            r == (Bound { at_most: Some(value), ..self }),
    {
        Bound { at_most: Some(value), ..self }
    }

    pub fn and_lt(self, value: Number) -> (r: Self)
        ensures
            r == (Bound { below: Some(value), ..self }),
    {
        Bound { below: Some(value), ..self }
    }

    /// Whether a number is within every bound given.
    pub fn holds(self, got: Number) -> (r: bool)
        ensures
            r == self.admits(got),
    {
        (match self.at_least {
            Some(b) => got.at_least(&b),
            None => true,
        }) && (match self.above {
            Some(b) => got.above(&b),
            None => true,
        }) && (match self.at_most {
            Some(b) => b.at_least(&got),
            None => true,
        }) && (match self.below {
            Some(b) => b.above(&got),
            None => true,
        })
    }

    /// Whether no bound is given.
    pub fn is_empty(self) -> (r: bool)
        ensures
            r == (self == Bound::none()),
    {
        self.at_least.is_none() && self.above.is_none() && self.at_most.is_none()
            && self.below.is_none()
    }
}

impl Default for Bound {
    fn default() -> (r: Self)
        ensures
            r == Bound::none(),
    {
        Bound { at_least: None, above: None, at_most: None, below: None }
    }
}

/// One term of a condition.
#[derive(Debug)]
pub enum Value {
    Bool(bool),
    Text(String),
    Number(Number),
    /// Any of these.
    AnyOf(Vec<Value>),
    Bound(Bound),
    Nested(Condition),
    /// Ignored, as a flag that is false is.
    Null,
}

/// The members a lookup is held against, keyed by the names the API serves. The
/// members within one condition must all match.
///
/// A member set to false or null is ignored: a condition states the positive
/// signals that are acted on.
#[derive(Debug)]
pub struct Condition {
    index: IndexMap<String, usize>,
    values: Vec<Value>,
}

/// A list of conditions is OR.
pub type Conditions = Vec<Condition>;

/// What a term is, with its texts as sequences of characters.
pub enum ValueView {
    Bool(bool),
    Text(Seq<char>),
    Number(Number),
    AnyOf(Seq<ValueView>),
    Bound(Bound),
    Nested(Seq<(Seq<char>, ValueView)>),
    Null,
}

pub open spec fn value_view(value: Value) -> ValueView
    decreases value,
{
    match value {
        Value::Bool(b) => ValueView::Bool(b),
        Value::Text(s) => ValueView::Text(s@),
        Value::Number(n) => ValueView::Number(n),
        Value::AnyOf(entries) => ValueView::AnyOf(value_views(entries@)),
        Value::Bound(b) => ValueView::Bound(b),
        Value::Nested(nested) => ValueView::Nested(condition_view(nested)),
        Value::Null => ValueView::Null,
    }
}

pub open spec fn value_views(values: Seq<Value>) -> Seq<ValueView>
    decreases values,
{
    if values.len() == 0 {
        Seq::empty()
    } else {
        value_views(values.drop_last()).push(value_view(values.last()))
    }
}

pub closed spec fn condition_view(condition: Condition) -> Seq<(Seq<char>, ValueView)>
    decreases condition,
{
    term_views(places(condition.index), condition.values@)
}

spec fn term_views(names: Seq<(Seq<char>, usize)>, values: Seq<Value>) -> Seq<
    (Seq<char>, ValueView),
>
    decreases values,
{
    if values.len() == 0 || names.len() == 0 {
        Seq::empty()
    } else {
        term_views(names.drop_last(), values.drop_last()).push(
            (names.last().0, value_view(values.last())),
        )
    }
}

impl View for Value {
    type V = ValueView;

    open spec fn view(&self) -> ValueView {
        value_view(*self)
    }
}

impl View for Condition {
    type V = Seq<(Seq<char>, ValueView)>;

    open spec fn view(&self) -> Seq<(Seq<char>, ValueView)> {
        condition_view(*self)
    }
}

/// The views of a list of conditions.
pub open spec fn condition_views(conditions: Seq<Condition>) -> Seq<Seq<(Seq<char>, ValueView)>> {
    conditions.map_values(|c: Condition| c@)
}

pub proof fn value_views_are(values: Seq<Value>)
    ensures
        value_views(values).len() == values.len(),
        forall|i: int| 0 <= i < values.len() ==> #[trigger] value_views(values)[i] == values[i]@,
    decreases values.len(),
{
    if values.len() > 0 {
        value_views_are(values.drop_last());
    }
}

proof fn term_views_are(names: Seq<(Seq<char>, usize)>, values: Seq<Value>)
    requires
        names.len() == values.len(),
    ensures
        term_views(names, values).len() == values.len(),
        forall|i: int|
            0 <= i < values.len() ==> #[trigger] term_views(names, values)[i] == (
                names[i].0,
                values[i]@,
            ),
    decreases values.len(),
{
    if values.len() > 0 {
        term_views_are(names.drop_last(), values.drop_last());
    }
}

/// The two sequences name their entries alike, so a name is found at one place.
proof fn entry_at_alike<A, B>(a: Seq<(Seq<char>, A)>, b: Seq<(Seq<char>, B)>, name: Seq<char>)
    requires
        a.len() == b.len(),
        forall|i: int| 0 <= i < a.len() ==> (#[trigger] a[i]).0 == b[i].0,
    ensures
        entry_at(a, name) == entry_at(b, name),
    decreases a.len(),
{
    if a.len() > 0 {
        assert forall|i: int| 0 <= i < a.len() - 1 implies (#[trigger] a.drop_last()[i]).0
            == b.drop_last()[i].0 by {
            assert(a[i].0 == b[i].0);
        }
        entry_at_alike(a.drop_last(), b.drop_last(), name);
        assert(a[a.len() - 1].0 == b[b.len() - 1].0);
    }
}

pub open spec fn pair_views(terms: Seq<(String, Value)>) -> Seq<(Seq<char>, ValueView)> {
    terms.map_values(|term: (String, Value)| (term.0@, term.1@))
}

/// What is left of terms set one after another.
pub open spec fn folded(terms: Seq<(Seq<char>, ValueView)>) -> Seq<(Seq<char>, ValueView)>
    decreases terms.len(),
{
    if terms.len() == 0 {
        Seq::empty()
    } else {
        inserted(folded(terms.drop_last()), terms.last().0, terms.last().1)
    }
}

impl Condition {
    /// Every name has the place of its value, and no name has two.
    #[verifier::type_invariant]
    spec fn placed(self) -> bool {
        &&& places(self.index).len() == self.values@.len()
        &&& forall|i: int|
            0 <= i < self.values@.len() ==> (#[trigger] places(self.index)[i]).1 == i
        &&& forall|i: int, j: int|
            0 <= i < j < self.values@.len() ==> (#[trigger] places(self.index)[i]).0 != (
            #[trigger] places(self.index)[j]).0
    }

    /// A condition without terms.
    pub fn new() -> (r: Self)
        ensures
            r@ == Seq::<(Seq<char>, ValueView)>::empty(),
    {
        Condition { index: new_places(), values: Vec::new() }
    }

    /// The condition with one more term, or with a term replaced.
    pub fn with(self, member: String, value: Value) -> (r: Self)
        ensures
            r@ == inserted(self@, member@, value@),
    {
        proof {
            use_type_invariant(&self);
            term_views_are(places(self.index), self.values@);
            entry_at_alike(self@, places(self.index), member@);
            entry_at_finds(places(self.index), member@);
        }
        let ghost before = self@;
        let mut index = self.index;
        let mut values = self.values;
        match get_place(&index, member.as_str()) {
            Some(place) => {
                let ghost old_values = values@;
                values.set(place, value);
                proof {
                    term_views_are(places(index), values@);
                    assert(term_views(places(index), values@) =~= before.update(
                        place as int,
                        (member@, value@),
                    ));
                }
            },
            None => {
                let place: usize = values.len();
                let ghost names = places(index);
                let ghost old_values = values@;
                insert_place(&mut index, member, place);
                values.push(value);
                proof {
                    assert(places(index).drop_last() =~= names);
                    assert(values@.drop_last() =~= old_values);
                }
            },
        }
        Condition { index, values }
    }

    /// The condition of these terms, one after another: of two with one name the
    /// later one's value stands, where the earlier one stood.
    pub fn from_terms(terms: Vec<(String, Value)>) -> (r: Self)
        ensures
            r@ == folded(pair_views(terms@)),
    {
        let ghost all = pair_views(terms@);
        let mut r = Condition::new();
        for term in iter: terms
            invariant
                iter.seq() == terms@,
                all == pair_views(terms@),
                r@ == folded(all.take(iter.index() as int)),
        {
            let ghost i = iter.index() as int;
            assert(all.take(i + 1).drop_last() =~= all.take(i));
            assert(all.take(i + 1).last() == (term.0@, term.1@));
            r = r.with(term.0, term.1);
        }
        assert(all.take(all.len() as int) =~= all);
        r
    }

    /// How many terms there are.
    pub(crate) fn len(&self) -> (n: usize)
        ensures
            n == self@.len(),
    {
        proof {
            use_type_invariant(self);
            term_views_are(places(self.index), self.values@);
        }
        self.values.len()
    }

    /// The value of the term that has a given name.
    pub(crate) fn get(&self, name: &str) -> (r: Option<&Value>)
        ensures
            match r {
                Some(value) => entry_at(self@, name@) matches Some(i) && self@[i].1 == value@,
                None => entry_at(self@, name@) is None,
            },
    {
        proof {
            use_type_invariant(self);
            term_views_are(places(self.index), self.values@);
            entry_at_alike(self@, places(self.index), name@);
            entry_at_finds(places(self.index), name@);
        }
        match get_place(&self.index, name) {
            Some(place) => Some(&self.values[place]),
            None => None,
        }
    }

    /// One term and its name.
    pub(crate) fn term(&self, at: usize) -> (r: (&String, &Value))
        requires
            at < self@.len(),
        ensures
            self@[at as int] == (r.0@, r.1@),
            decreases_to!(*self => *r.1),
    {
        proof {
            use_type_invariant(self);
            term_views_are(places(self.index), self.values@);
        }
        let value = &self.values[at];
        assert(decreases_to!(*self => self.values));
        assert(decreases_to!(self.values => self.values@));
        assert(decreases_to!(self.values@ => self.values@[at as int]));
        match name_at(&self.index, at) {
            Some(name) => (name, value),
            None => vstd::pervasive::unreached(),
        }
    }
}

/// A condition that could not be read.
#[derive(Clone, Debug, PartialEq, Eq)]
pub struct ConditionError {
    pub message: String,
}

impl View for ConditionError {
    type V = Seq<char>;

    open spec fn view(&self) -> Seq<char> {
        self.message@
    }
}

impl ConditionError {
    pub fn new(message: String) -> (r: Self)
        ensures
            r@ == message@,
    {
        ConditionError { message }
    }

    /// The line that says what is wrong.
    pub fn to_text(&self) -> (r: String)
        ensures
            r@ == "vpndetection: "@ + self@,
    {
        concat("vpndetection: ", self.message.as_str())
    }
}

pub open spec fn same_limit(a: Option<Number>, b: Option<Number>) -> bool {
    match (a, b) {
        (Some(a), Some(b)) => a.equals(b),
        (None, None) => true,
        _ => false,
    }
}

pub open spec fn same_bound(a: Bound, b: Bound) -> bool {
    &&& same_limit(a.at_least, b.at_least)
    &&& same_limit(a.above, b.above)
    &&& same_limit(a.at_most, b.at_most)
    &&& same_limit(a.below, b.below)
}

/// Whether two terms are the same.
pub open spec fn same_value(a: ValueView, b: ValueView) -> bool
    decreases a,
{
    match (a, b) {
        (ValueView::Bool(a), ValueView::Bool(b)) => a == b,
        (ValueView::Text(a), ValueView::Text(b)) => a == b,
        (ValueView::Number(a), ValueView::Number(b)) => a.equals(b),
        (ValueView::AnyOf(a), ValueView::AnyOf(b)) => a.len() == b.len() && same_values(a, b),
        (ValueView::Bound(a), ValueView::Bound(b)) => same_bound(a, b),
        (ValueView::Nested(a), ValueView::Nested(b)) => a.len() == b.len() && terms_among(a, b),
        (ValueView::Null, ValueView::Null) => true,
        _ => false,
    }
}

pub open spec fn same_values(a: Seq<ValueView>, b: Seq<ValueView>) -> bool
    decreases a,
{
    a.len() == 0 || (b.len() > 0 && same_values(a.drop_last(), b.drop_last()) && same_value(
        a.last(),
        b.last(),
    ))
}

/// Whether every term of one condition is a term of another.
pub open spec fn terms_among(
    a: Seq<(Seq<char>, ValueView)>,
    b: Seq<(Seq<char>, ValueView)>,
) -> bool
    decreases a,
{
    a.len() == 0 || (terms_among(a.drop_last(), b) && match entry_at(b, a.last().0) {
        Some(i) => same_value(a.last().1, b[i].1),
        None => false,
    })
}

/// Whether two conditions have the same terms, in whatever order.
pub open spec fn same_terms(
    a: Seq<(Seq<char>, ValueView)>,
    b: Seq<(Seq<char>, ValueView)>,
) -> bool {
    a.len() == b.len() && terms_among(a, b)
}

fn limits_agree(a: &Option<Number>, b: &Option<Number>) -> (r: bool)
    ensures
        r == same_limit(*a, *b),
{
    match (a, b) {
        (Some(a), Some(b)) => a.same(b),
        (None, None) => true,
        _ => false,
    }
}

proof fn same_values_all(a: Seq<ValueView>, b: Seq<ValueView>, i: int)
    requires
        a.len() == b.len(),
        0 <= i < a.len(),
    ensures
        same_values(a, b) ==> same_value(a[i], b[i]),
    decreases a.len(),
{
    if i < a.len() - 1 {
        same_values_all(a.drop_last(), b.drop_last(), i);
    }
}

proof fn terms_among_all(
    a: Seq<(Seq<char>, ValueView)>,
    b: Seq<(Seq<char>, ValueView)>,
    i: int,
)
    requires
        0 <= i < a.len(),
    ensures
        terms_among(a, b) ==> (entry_at(b, a[i].0) matches Some(k) && same_value(a[i].1, b[k].1)),
    decreases a.len(),
{
    if i < a.len() - 1 {
        terms_among_all(a.drop_last(), b, i);
    }
}

fn values_agree(a: &Value, b: &Value) -> (r: bool)
    ensures
        r == same_value(a@, b@),
    decreases *a,
{
    match (a, b) {
        (Value::Bool(a), Value::Bool(b)) => *a == *b,
        (Value::Text(a), Value::Text(b)) => same(a.as_str(), b.as_str()),
        (Value::Number(a), Value::Number(b)) => a.same(b),
        (Value::AnyOf(x), Value::AnyOf(y)) => {
            let ghost xs = value_views(x@);
            let ghost ys = value_views(y@);
            proof {
                value_views_are(x@);
                value_views_are(y@);
            }
            if x.len() != y.len() {
                return false;
            }
            for i in 0..x.len()
                invariant
                    *a == Value::AnyOf(*x),
                    *b == Value::AnyOf(*y),
                    xs == value_views(x@),
                    ys == value_views(y@),
                    xs.len() == x@.len(),
                    ys.len() == y@.len(),
                    xs.len() == ys.len(),
                    forall|j: int| 0 <= j < xs.len() ==> #[trigger] xs[j] == x@[j]@,
                    forall|j: int| 0 <= j < ys.len() ==> #[trigger] ys[j] == y@[j]@,
                    same_values(xs.take(i as int), ys.take(i as int)),
            {
                assert(xs.take(i + 1).drop_last() =~= xs.take(i as int));
                assert(ys.take(i + 1).drop_last() =~= ys.take(i as int));
                assert(decreases_to!(*a => a->AnyOf_0));
                assert(decreases_to!(*x => x@));
                assert(decreases_to!(x@ => x@[i as int]));
                if !values_agree(&x[i], &y[i]) {
                    proof {
                        same_values_all(xs, ys, i as int);
                    }
                    return false;
                }
            }
            assert(xs.take(xs.len() as int) =~= xs);
            assert(ys.take(ys.len() as int) =~= ys);
            true
        },
        (Value::Bound(a), Value::Bound(b)) => {
            limits_agree(&a.at_least, &b.at_least) && limits_agree(&a.above, &b.above)
                && limits_agree(&a.at_most, &b.at_most) && limits_agree(&a.below, &b.below)
        },
        (Value::Nested(x), Value::Nested(y)) => {
            assert(decreases_to!(*a => a->Nested_0));
            conditions_agree(x, y)
        },
        (Value::Null, Value::Null) => true,
        _ => false,
    }
}

fn conditions_agree(a: &Condition, b: &Condition) -> (r: bool)
    ensures
        r == same_terms(a@, b@),
    decreases *a,
{
    let count: usize = a.len();
    if count != b.len() {
        return false;
    }
    for i in 0..count
        invariant
            count == a@.len(),
            count == b@.len(),
            terms_among(a@.take(i as int), b@),
    {
        assert(a@.take(i + 1).drop_last() =~= a@.take(i as int));
        let (name, value) = a.term(i);
        let agrees = match b.get(name.as_str()) {
            Some(other) => values_agree(value, other),
            None => false,
        };
        if !agrees {
            proof {
                terms_among_all(a@, b@, i as int);
            }
            return false;
        }
    }
    assert(a@.take(a@.len() as int) =~= a@);
    true
}

fn copy_value(value: &Value) -> (r: Value)
    ensures
        r@ == value@,
    decreases *value,
{
    match value {
        Value::Bool(flag) => Value::Bool(*flag),
        Value::Text(text) => Value::Text(text.clone()),
        Value::Number(number) => Value::Number(*number),
        Value::AnyOf(entries) => {
            let mut all: Vec<Value> = Vec::new();
            for i in 0..entries.len()
                invariant
                    *value == Value::AnyOf(*entries),
                    value_views(all@) == value_views(entries@.take(i as int)),
            {
                assert(entries@.take(i + 1).drop_last() =~= entries@.take(i as int));
                assert(decreases_to!(*value => value->AnyOf_0));
                assert(decreases_to!(*entries => entries@));
                assert(decreases_to!(entries@ => entries@[i as int]));
                let ghost before = all@;
                all.push(copy_value(&entries[i]));
                assert(all@.drop_last() =~= before);
            }
            assert(entries@.take(entries@.len() as int) =~= entries@);
            Value::AnyOf(all)
        },
        Value::Bound(bound) => Value::Bound(*bound),
        Value::Nested(nested) => {
            assert(decreases_to!(*value => value->Nested_0));
            Value::Nested(copy_condition(nested))
        },
        Value::Null => Value::Null,
    }
}

fn copy_condition(condition: &Condition) -> (r: Condition)
    ensures
        r@ == condition@,
    decreases *condition,
{
    proof {
        use_type_invariant(condition);
        term_views_are(places(condition.index), condition.values@);
    }
    let mut r = Condition::new();
    let count: usize = condition.len();
    for i in 0..count
        invariant
            count == condition@.len(),
            forall|a: int, b: int|
                0 <= a < b < count ==> (#[trigger] condition@[a]).0 != (#[trigger] condition@[b]).0,
            r@ == condition@.take(i as int),
    {
        let (name, value) = condition.term(i);
        proof {
            entry_at_finds(r@, name@);
            if let Some(k) = entry_at(r@, name@) {
                assert(condition@[k].0 == condition@[i as int].0);
            }
        }
        r = r.with(name.clone(), copy_value(value));
        assert(condition@.take(i + 1) =~= condition@.take(i as int).push(condition@[i as int]));
    }
    assert(condition@.take(condition@.len() as int) =~= condition@);
    r
}

impl Clone for Value {
    fn clone(&self) -> (r: Self)
        ensures
            r@ == self@,
    {
        copy_value(self)
    }
}

impl Clone for Condition {
    fn clone(&self) -> (r: Self)
        ensures
            r@ == self@,
    {
        copy_condition(self)
    }
}

impl PartialEq for Value {
    fn eq(&self, other: &Self) -> (r: bool) {
        values_agree(self, other)
    }
}

impl vstd::std_specs::cmp::PartialEqSpecImpl for Value {
    open spec fn obeys_eq_spec() -> bool {
        true
    }

    open spec fn eq_spec(&self, other: &Self) -> bool {
        same_value(self@, other@)
    }
}

impl PartialEq for Condition {
    fn eq(&self, other: &Self) -> (r: bool) {
        conditions_agree(self, other)
    }
}

impl vstd::std_specs::cmp::PartialEqSpecImpl for Condition {
    open spec fn obeys_eq_spec() -> bool {
        true
    }

    open spec fn eq_spec(&self, other: &Self) -> bool {
        same_terms(self@, other@)
    }
}

impl From<bool> for Value {
    fn from(value: bool) -> (r: Self)
        ensures
            r@ == ValueView::Bool(value),
    {
        Value::Bool(value)
    }
}

impl vstd::std_specs::convert::FromSpecImpl<bool> for Value {
    open spec fn obeys_from_spec() -> bool {
        true
    }

    open spec fn from_spec(value: bool) -> Self {
        Value::Bool(value)
    }
}

impl From<&str> for Value {
    fn from(value: &str) -> (r: Self)
        ensures
            r@ == ValueView::Text(value@),
    {
        Value::Text(value.to_owned())
    }
}

impl vstd::std_specs::convert::FromSpecImpl<&str> for Value {
    open spec fn obeys_from_spec() -> bool {
        false
    }

    open spec fn from_spec(value: &str) -> Self {
        Value::Null
    }
}

impl From<String> for Value {
    fn from(value: String) -> (r: Self)
        ensures
            r@ == ValueView::Text(value@),
    {
        Value::Text(value)
    }
}

impl vstd::std_specs::convert::FromSpecImpl<String> for Value {
    open spec fn obeys_from_spec() -> bool {
        true
    }

    open spec fn from_spec(value: String) -> Self {
        Value::Text(value)
    }
}

impl From<Bound> for Value {
    fn from(value: Bound) -> (r: Self)
        ensures
            r@ == ValueView::Bound(value),
    {
        Value::Bound(value)
    }
}

impl vstd::std_specs::convert::FromSpecImpl<Bound> for Value {
    open spec fn obeys_from_spec() -> bool {
        true
    }

    open spec fn from_spec(value: Bound) -> Self {
        Value::Bound(value)
    }
}

impl From<Condition> for Value {
    fn from(value: Condition) -> (r: Self)
        ensures
            r@ == ValueView::Nested(value@),
    {
        Value::Nested(value)
    }
}

impl vstd::std_specs::convert::FromSpecImpl<Condition> for Value {
    open spec fn obeys_from_spec() -> bool {
        true
    }

    open spec fn from_spec(value: Condition) -> Self {
        Value::Nested(value)
    }
}

impl From<Number> for Value {
    fn from(value: Number) -> (r: Self)
        ensures
            r@ == ValueView::Number(value),
    {
        Value::Number(value)
    }
}

impl vstd::std_specs::convert::FromSpecImpl<Number> for Value {
    open spec fn obeys_from_spec() -> bool {
        true
    }

    open spec fn from_spec(value: Number) -> Self {
        Value::Number(value)
    }
}

impl From<i8> for Value {
    fn from(value: i8) -> (r: Self)
        ensures
            r@ == ValueView::Number(integer(value as int)),
    {
        Value::Number(Number::from_integer(value as i64))
    }
}

impl vstd::std_specs::convert::FromSpecImpl<i8> for Value {
    open spec fn obeys_from_spec() -> bool {
        true
    }

    open spec fn from_spec(value: i8) -> Self {
        Value::Number(integer(value as int))
    }
}

impl From<i16> for Value {
    fn from(value: i16) -> (r: Self)
        ensures
            r@ == ValueView::Number(integer(value as int)),
    {
        Value::Number(Number::from_integer(value as i64))
    }
}

impl vstd::std_specs::convert::FromSpecImpl<i16> for Value {
    open spec fn obeys_from_spec() -> bool {
        true
    }

    open spec fn from_spec(value: i16) -> Self {
        Value::Number(integer(value as int))
    }
}

impl From<i32> for Value {
    fn from(value: i32) -> (r: Self)
        ensures
            r@ == ValueView::Number(integer(value as int)),
    {
        Value::Number(Number::from_integer(value as i64))
    }
}

impl vstd::std_specs::convert::FromSpecImpl<i32> for Value {
    open spec fn obeys_from_spec() -> bool {
        true
    }

    open spec fn from_spec(value: i32) -> Self {
        Value::Number(integer(value as int))
    }
}

impl From<u8> for Value {
    fn from(value: u8) -> (r: Self)
        ensures
            r@ == ValueView::Number(integer(value as int)),
    {
        Value::Number(Number::from_integer(value as i64))
    }
}

impl vstd::std_specs::convert::FromSpecImpl<u8> for Value {
    open spec fn obeys_from_spec() -> bool {
        true
    }

    open spec fn from_spec(value: u8) -> Self {
        Value::Number(integer(value as int))
    }
}

impl From<u16> for Value {
    fn from(value: u16) -> (r: Self)
        ensures
            r@ == ValueView::Number(integer(value as int)),
    {
        Value::Number(Number::from_integer(value as i64))
    }
}

impl vstd::std_specs::convert::FromSpecImpl<u16> for Value {
    open spec fn obeys_from_spec() -> bool {
        true
    }

    open spec fn from_spec(value: u16) -> Self {
        Value::Number(integer(value as int))
    }
}

impl From<u32> for Value {
    fn from(value: u32) -> (r: Self)
        ensures
            r@ == ValueView::Number(integer(value as int)),
    {
        Value::Number(Number::from_integer(value as i64))
    }
}

impl vstd::std_specs::convert::FromSpecImpl<u32> for Value {
    open spec fn obeys_from_spec() -> bool {
        true
    }

    open spec fn from_spec(value: u32) -> Self {
        Value::Number(integer(value as int))
    }
}

impl From<Vec<Value>> for Value {
    fn from(value: Vec<Value>) -> (r: Self)
        ensures
            r@ == ValueView::AnyOf(value_views(value@)),
    {
        Value::AnyOf(value)
    }
}

impl vstd::std_specs::convert::FromSpecImpl<Vec<Value>> for Value {
    open spec fn obeys_from_spec() -> bool {
        true
    }

    open spec fn from_spec(value: Vec<Value>) -> Self {
        Value::AnyOf(value)
    }
}

impl From<Option<Value>> for Value {
    fn from(value: Option<Value>) -> (r: Self)
        ensures
            r@ == (match value {
                Some(value) => value@,
                None => ValueView::Null,
            }),
    {
        match value {
            Some(value) => value,
            None => Value::Null,
        }
    }
}

impl vstd::std_specs::convert::FromSpecImpl<Option<Value>> for Value {
    open spec fn obeys_from_spec() -> bool {
        true
    }

    open spec fn from_spec(value: Option<Value>) -> Self {
        match value {
            Some(value) => value,
            None => Value::Null,
        }
    }
}

/// A bound admits exactly the numbers within all of its limits: at least, above, at most
/// and below, each where it is given.
pub proof fn law_a_bound_admits_what_is_within_it(bound: Bound, limit: Number, got: Number)
    ensures
        Bound::none().admits(got),
        Bound::none() == (Bound { at_least: None, above: None, at_most: None, below: None }),
        (Bound { at_least: Some(limit), ..Bound::none() }).admits(got) == got.ge(limit),
        (Bound { above: Some(limit), ..Bound::none() }).admits(got) == got.gt(limit),
        (Bound { at_most: Some(limit), ..Bound::none() }).admits(got) == limit.ge(got),
        (Bound { below: Some(limit), ..Bound::none() }).admits(got) == limit.gt(got),
        bound.admits(got) == ((Bound { at_least: bound.at_least, ..Bound::none() }).admits(got) && (
        Bound { above: bound.above, ..Bound::none() }).admits(got) && (Bound {
            at_most: bound.at_most,
            ..Bound::none()
        }).admits(got) && (Bound { below: bound.below, ..Bound::none() }).admits(got)),
{
}

/// Setting a member puts it behind the others when it is new, and in its old place when
/// it is not, and leaves every other member as it was.
pub proof fn law_setting_a_member_changes_it_alone(
    terms: Seq<(Seq<char>, ValueView)>,
    name: Seq<char>,
    value: ValueView,
    i: int,
)
    requires
        0 <= i < terms.len(),
    ensures
        inserted(Seq::empty(), name, value) == seq![(name, value)],
        terms[i].0 != name ==> inserted(terms, name, value)[i] == terms[i],
        terms[i].0 == name && (forall|j: int| 0 <= j < i ==> (#[trigger] terms[j]).0 != name)
            ==> inserted(terms, name, value) == terms.update(i, (name, value)),
        (forall|j: int| 0 <= j < terms.len() ==> (#[trigger] terms[j]).0 != name) ==> inserted(
            terms,
            name,
            value,
        ) == terms.push((name, value)),
        folded(Seq::empty()) == Seq::<(Seq<char>, ValueView)>::empty(),
        folded(terms.push((name, value))) == inserted(folded(terms), name, value),
{
    entry_at_finds(terms, name);
    assert(inserted(Seq::<(Seq<char>, ValueView)>::empty(), name, value) =~= seq![(name, value)]);
    assert(terms.push((name, value)).drop_last() =~= terms);
    if let Some(k) = entry_at(terms, name) {
        assert(terms[k].0 == name);
    }
}

/// A term reads as what it is.
pub proof fn law_a_term_reads_as_what_it_is(
    flag: bool,
    text: String,
    number: Number,
    bound: Bound,
    entries: Vec<Value>,
    nested: Condition,
)
    ensures
        Value::Bool(flag)@ == ValueView::Bool(flag),
        Value::Text(text)@ == ValueView::Text(text@),
        Value::Number(number)@ == ValueView::Number(number),
        Value::Bound(bound)@ == ValueView::Bound(bound),
        Value::Null@ == ValueView::Null,
        Value::Nested(nested)@ == ValueView::Nested(nested@),
        Value::AnyOf(entries)@ matches ValueView::AnyOf(views) && views.len() == entries@.len()
            && forall|i: int| 0 <= i < views.len() ==> #[trigger] views[i] == entries@[i]@,
{
    value_views_are(entries@);
}

/// Two terms are the same when they are of one kind and have the same flag, text, number,
/// limits, entries in order, or members in any order.
pub proof fn law_when_two_terms_are_the_same(
    flag: bool,
    other_flag: bool,
    text: Seq<char>,
    other_text: Seq<char>,
    number: Number,
    other_number: Number,
    entries: Seq<ValueView>,
    others: Seq<ValueView>,
)
    ensures
        same_value(ValueView::Bool(flag), ValueView::Bool(other_flag)) == (flag == other_flag),
        same_value(ValueView::Text(text), ValueView::Text(other_text)) == (text == other_text),
        same_value(ValueView::Number(number), ValueView::Number(other_number)) == number.equals(
            other_number,
        ),
        same_value(ValueView::Null, ValueView::Null),
        !same_value(ValueView::Bool(flag), ValueView::Null),
        !same_value(ValueView::Text(text), ValueView::Bool(flag)),
        !same_value(ValueView::Number(number), ValueView::Text(text)),
        same_value(ValueView::AnyOf(entries), ValueView::AnyOf(others)) ==> entries.len()
            == others.len() && forall|i: int|
            0 <= i < entries.len() ==> same_value(#[trigger] entries[i], others[i]),
{
    if same_value(ValueView::AnyOf(entries), ValueView::AnyOf(others)) {
        assert forall|i: int| 0 <= i < entries.len() implies same_value(
            #[trigger] entries[i],
            others[i],
        ) by {
            same_values_all(entries, others, i);
        }
    }
}

/// Two bounds are the same when each limit is, and two conditions when they have as many
/// members and each of one is a member of the other with the same value.
pub proof fn law_when_two_conditions_are_the_same(
    a: Seq<(Seq<char>, ValueView)>,
    b: Seq<(Seq<char>, ValueView)>,
    x: Bound,
    y: Bound,
    limit: Number,
)
    ensures
        same_value(ValueView::Bound(x), ValueView::Bound(y)) == (same_limit(x.at_least, y.at_least)
            && same_limit(x.above, y.above) && same_limit(x.at_most, y.at_most) && same_limit(
            x.below,
            y.below,
        )),
        same_limit(None, None),
        !same_limit(Some(limit), None),
        same_limit(Some(limit), x.above) == (x.above matches Some(other) && limit.equals(other)),
        same_value(ValueView::Nested(a), ValueView::Nested(b)) == same_terms(a, b),
        same_terms(a, b) ==> a.len() == b.len() && forall|i: int|
            0 <= i < a.len() ==> exists|j: int|
                0 <= j < b.len() && (#[trigger] b[j]).0 == (#[trigger] a[i]).0 && same_value(
                    a[i].1,
                    b[j].1,
                ),
        same_terms(Seq::empty(), Seq::empty()),
{
    if same_terms(a, b) {
        assert forall|i: int| 0 <= i < a.len() implies exists|j: int|
            0 <= j < b.len() && (#[trigger] b[j]).0 == (#[trigger] a[i]).0 && same_value(
                a[i].1,
                b[j].1,
            ) by {
            terms_among_all(a, b, i);
            entry_at_finds(b, a[i].0);
            let j = entry_at(b, a[i].0)->0;
            assert(b[j].0 == a[i].0);
        }
    }
}

}
