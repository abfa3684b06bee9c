//! JSON values, as a condition reads them.

use vstd::prelude::*;

use crate::number::Number;
use crate::text::{hex_digit, same};

verus! {

/// A JSON number: the digits it is written with, and the double it reads as,
/// which is absent when no double stands for it.
#[derive(Debug, PartialEq)]
pub struct JsonNumber {
    pub text: String,
    pub value: Option<Number>,
}

/// A JSON value.
#[derive(Debug)]
pub enum Json {
    Null,
    Bool(bool),
    Number(JsonNumber),
    Text(String),
    Array(Vec<Json>),
    /// The members of an object, in the order they are walked.
    Object(Vec<(String, Json)>),
}

/// What a JSON value is, with its texts as sequences of characters.
pub enum JsonView {
    Null,
    Bool(bool),
    Number { text: Seq<char>, value: Option<Number> },
    Text(Seq<char>),
    Array(Seq<JsonView>),
    Object(Seq<(Seq<char>, JsonView)>),
}

impl View for Json {
    type V = JsonView;

    open spec fn view(&self) -> JsonView {
        json_view(*self)
    }
}

pub open spec fn json_view(json: Json) -> JsonView
    decreases json,
{
    match json {
        Json::Null => JsonView::Null,
        Json::Bool(b) => JsonView::Bool(b),
        Json::Number(n) => JsonView::Number { text: n.text@, value: n.value },
        Json::Text(s) => JsonView::Text(s@),
        Json::Array(entries) => JsonView::Array(entry_views(entries@)),
        Json::Object(members) => JsonView::Object(member_views(members@)),
    }
}

pub open spec fn entry_views(entries: Seq<Json>) -> Seq<JsonView>
    decreases entries,
{
    if entries.len() == 0 {
        Seq::empty()
    } else {
        entry_views(entries.drop_last()).push(json_view(entries.last()))
    }
}

pub open spec fn member_views(members: Seq<(String, Json)>) -> Seq<(Seq<char>, JsonView)>
    decreases members,
{
    if members.len() == 0 {
        Seq::empty()
    } else {
        member_views(members.drop_last()).push((members.last().0@, json_view(members.last().1)))
    }
}

pub proof fn entry_views_are(entries: Seq<Json>)
    ensures
        entry_views(entries).len() == entries.len(),
        forall|i: int| 0 <= i < entries.len() ==> #[trigger] entry_views(entries)[i] == entries[i]@,
    decreases entries.len(),
{
    if entries.len() > 0 {
        entry_views_are(entries.drop_last());
    }
}

pub proof fn member_views_are(members: Seq<(String, Json)>)
    ensures
        member_views(members).len() == members.len(),
        forall|i: int|
            0 <= i < members.len() ==> #[trigger] member_views(members)[i] == (
                members[i].0@,
                members[i].1@,
            ),
    decreases members.len(),
{
    if members.len() > 0 {
        member_views_are(members.drop_last());
    }
}

impl JsonView {
    /// The first member of an object that has a given name. A value that is not
    /// an object has none.
    pub open spec fn member(self, name: Seq<char>) -> Option<JsonView> {
        match self {
            JsonView::Object(members) => member_of(members, name),
            _ => None,
        }
    }

    pub open spec fn as_number(self) -> Option<Number> {
        match self {
            JsonView::Number { value, .. } => value,
            _ => None,
        }
    }

    pub open spec fn as_text(self) -> Option<Seq<char>> {
        match self {
            JsonView::Text(s) => Some(s),
            _ => None,
        }
    }

    pub open spec fn as_bool(self) -> Option<bool> {
        match self {
            JsonView::Bool(b) => Some(b),
            _ => None,
        }
    }
}

/// The value under the first of the members that has a given name.
pub open spec fn member_of(members: Seq<(Seq<char>, JsonView)>, name: Seq<char>) -> Option<JsonView>
    decreases members.len(),
{
    if members.len() == 0 {
        None
    } else if members[0].0 == name {
        Some(members[0].1)
    } else {
        member_of(members.skip(1), name)
    }
}

impl Json {
    /// The member of an object that has a given name.
    pub fn get(&self, name: &str) -> (r: Option<&Json>)
        ensures
            match r {
                Some(json) => self@.member(name@) == Some(json@),
                None => self@.member(name@) is None,
            },
            r matches Some(json) ==> decreases_to!(*self => *json),
    {
        match self {
            Json::Object(members) => {
                let ghost views = member_views(members@);
                proof {
                    member_views_are(members@);
                }
                assert(views.skip(0) =~= views);
                for i in 0..members.len()
                    invariant
                        views == member_views(members@),
                        *self == Json::Object(*members),
                        member_of(views, name@) == member_of(views.skip(i as int), name@),
                {
                    proof {
                        member_views_are(members@);
                    }
                    assert(views.skip(i as int)[0] == views[i as int]);
                    assert(views.skip(i as int).skip(1) =~= views.skip(i + 1));
                    if same(members[i].0.as_str(), name) {
                        assert(decreases_to!(*self => members@));
                        assert(decreases_to!(members@ => members@[i as int]));
                        assert(decreases_to!(members@[i as int] => members@[i as int].1));
                        return Some(&members[i].1);
                    }
                }
                proof {
                    member_views_are(members@);
                }
                None
            },
            _ => None,
        }
    }
}

/// How a character is written inside a JSON string.
pub open spec fn escape(c: char) -> Seq<char> {
    if c == '"' {
        seq!['\\', '"']
    } else if c == '\\' {
        seq!['\\', '\\']
    } else if c == '\u{8}' {
        seq!['\\', 'b']
    } else if c == '\u{9}' {
        seq!['\\', 't']
    } else if c == '\u{a}' {
        seq!['\\', 'n']
    } else if c == '\u{c}' {
        seq!['\\', 'f']
    } else if c == '\u{d}' {
        seq!['\\', 'r']
    } else if (c as int) < 32 {
        seq!['\\', 'u', '0', '0', hex_digit(c as int / 16), hex_digit(c as int % 16)]
    } else {
        seq![c]
    }
}

pub open spec fn escaped(s: Seq<char>) -> Seq<char>
    decreases s.len(),
{
    if s.len() == 0 {
        Seq::empty()
    } else {
        escaped(s.drop_last()) + escape(s.last())
    }
}

/// A text as a JSON string.
pub open spec fn quoted(s: Seq<char>) -> Seq<char> {
    seq!['"'] + escaped(s) + seq!['"']
}

/// Whether a text is JSON.
pub uninterp spec fn is_json_text(text: Seq<char>) -> bool;

/// Whether `serde_json::from_str` reads a text. Which texts it reads is not
/// stated.
#[verifier::external_body]
pub(crate) fn is_json(text: &str) -> (r: bool)
    ensures
        r == is_json_text(text@),
{
    serde_json::from_str::<serde_json::Value>(text).is_ok()
}

/// `serde_json`'s rendering of a `Value::String`: the text between quotes, with
/// quotes, backslashes and control characters escaped and nothing else.
#[verifier::external_body]
pub(crate) fn quote(text: &str) -> (r: String)
    ensures
        r@ == quoted(text@),
{
    serde_json::Value::from(text).to_string()
}

/// A JSON value written out with no white space in it.
pub open spec fn rendered(json: JsonView) -> Seq<char>
    decreases json,
{
    match json {
        JsonView::Null => "null"@,
        JsonView::Bool(b) => if b {
            "true"@
        } else {
            "false"@
        },
        JsonView::Number { text, .. } => text,
        JsonView::Text(s) => quoted(s),
        JsonView::Array(entries) => "["@ + rendered_entries(entries) + "]"@,
        JsonView::Object(members) => "{"@ + rendered_members(members) + "}"@,
    }
}

pub open spec fn rendered_entries(entries: Seq<JsonView>) -> Seq<char>
    decreases entries,
{
    if entries.len() == 0 {
        Seq::empty()
    } else {
        rendered_entries(entries.drop_last()) + (if entries.len() > 1 {
            ","@
        } else {
            Seq::empty()
        }) + rendered(entries.last())
    }
}

pub open spec fn rendered_members(members: Seq<(Seq<char>, JsonView)>) -> Seq<char>
    decreases members,
{
    if members.len() == 0 {
        Seq::empty()
    } else {
        rendered_members(members.drop_last()) + (if members.len() > 1 {
            ","@
        } else {
            Seq::empty()
        }) + quoted(members.last().0) + ":"@ + rendered(members.last().1)
    }
}

/// Writes a JSON value out with no white space in it.
pub fn render(json: &Json) -> (r: String)
    ensures
        r@ == rendered(json@),
    decreases *json,
{
    match json {
        Json::Null => "null".to_owned(),
        Json::Bool(b) => if *b {
            "true".to_owned()
        } else {
            "false".to_owned()
        },
        Json::Number(n) => n.text.clone(),
        Json::Text(s) => quote(s.as_str()),
        Json::Array(entries) => {
            let mut r = "[".to_owned();
            let ghost views = entry_views(entries@);
            proof {
                entry_views_are(entries@);
            }
            for i in 0..entries.len()
                invariant
                    *json == Json::Array(*entries),
                    views == entry_views(entries@),
                    views.len() == entries@.len(),
                    forall|j: int|
                        0 <= j < entries@.len() ==> #[trigger] views[j] == entries@[j]@,
                    r@ == "["@ + rendered_entries(views.take(i as int)),
            {
                assert(views.take(i + 1).drop_last() =~= views.take(i as int));
                assert(views.take(i + 1).last() == views[i as int]);
                if i > 0 {
                    r.append(",");
                }
                assert(decreases_to!(*json => json->Array_0));
                assert(decreases_to!(*entries => entries@));
                assert(decreases_to!(entries@ => entries@[i as int]));
                r.append(render(&entries[i]).as_str());
                assert(r@ =~= "["@ + rendered_entries(views.take(i + 1)));
            }
            assert(views.take(views.len() as int) =~= views);
            r.append("]");
            r
        },
        Json::Object(members) => {
            let mut r = "{".to_owned();
            let ghost views = member_views(members@);
            proof {
                member_views_are(members@);
            }
            for i in 0..members.len()
                invariant
                    *json == Json::Object(*members),
                    views == member_views(members@),
                    views.len() == members@.len(),
                    forall|j: int|
                        0 <= j < members@.len() ==> #[trigger] views[j] == (
                            members@[j].0@,
                            members@[j].1@,
                        ),
                    r@ == "{"@ + rendered_members(views.take(i as int)),
            {
                assert(views.take(i + 1).drop_last() =~= views.take(i as int));
                assert(views.take(i + 1).last() == views[i as int]);
                if i > 0 {
                    r.append(",");
                }
                r.append(quote(members[i].0.as_str()).as_str());
                r.append(":");
                assert(decreases_to!(*json => json->Object_0));
                assert(decreases_to!(*members => members@));
                assert(decreases_to!(members@ => members@[i as int]));
                assert(decreases_to!(members@[i as int] => members@[i as int].1));
                r.append(render(&members[i].1).as_str());
                assert(r@ =~= "{"@ + rendered_members(views.take(i + 1)));
            }
            assert(views.take(views.len() as int) =~= views);
            r.append("}");
            r
        },
    }
}

/// A value reads as what it is: each member and each entry where it stands, with
/// the value it has there.
pub proof fn law_a_value_reads_as_what_it_is(
    flag: bool,
    number: JsonNumber,
    text: String,
    entries: Vec<Json>,
    members: Vec<(String, Json)>,
)
    ensures
        Json::Null@ == JsonView::Null,
        Json::Bool(flag)@ == JsonView::Bool(flag),
        Json::Number(number)@ == (JsonView::Number { text: number.text@, value: number.value }),
        Json::Text(text)@ == JsonView::Text(text@),
        Json::Array(entries)@ matches JsonView::Array(views) && views.len() == entries@.len()
            && forall|i: int| 0 <= i < views.len() ==> #[trigger] views[i] == entries@[i]@,
        Json::Object(members)@ matches JsonView::Object(views) && views.len() == members@.len()
            && forall|i: int|
            0 <= i < views.len() ==> #[trigger] views[i] == (members@[i].0@, members@[i].1@),
{
    entry_views_are(entries@);
    member_views_are(members@);
}

/// A member of an object is the first that has its name, and an object has nothing
/// under a name that none of its members has. Nothing but an object has members.
pub proof fn law_a_member_is_the_first_of_its_name(
    members: Seq<(Seq<char>, JsonView)>,
    i: int,
    name: Seq<char>,
)
    requires
        0 <= i <= members.len(),
        forall|j: int| 0 <= j < i ==> (#[trigger] members[j]).0 != name,
        i < members.len() ==> members[i].0 == name,
    ensures
        JsonView::Object(members).member(name) == (if i < members.len() {
            Some(members[i].1)
        } else {
            None
        }),
        forall|other: JsonView| !(other is Object) ==> #[trigger] other.member(name) is None,
    decreases i,
{
    if i > 0 {
        assert(members[0].0 != name);
        let rest = members.skip(1);
        assert forall|j: int| 0 <= j < i - 1 implies (#[trigger] rest[j]).0 != name by {
            assert(rest[j] == members[j + 1]);
        }
        law_a_member_is_the_first_of_its_name(rest, i - 1, name);
    }
}

/// A value is a flag, a text or a number only when it is written as one.
pub proof fn law_a_value_is_of_one_kind(
    flag: bool,
    s: Seq<char>,
    n: Option<Number>,
    entries: Seq<JsonView>,
    members: Seq<(Seq<char>, JsonView)>,
)
    ensures
        JsonView::Bool(flag).as_bool() == Some(flag),
        JsonView::Text(s).as_text() == Some(s),
        (JsonView::Number { text: s, value: n }).as_number() == n,
        JsonView::Null.as_bool() is None && JsonView::Null.as_text() is None
            && JsonView::Null.as_number() is None,
        JsonView::Bool(flag).as_text() is None && JsonView::Bool(flag).as_number() is None,
        JsonView::Text(s).as_bool() is None && JsonView::Text(s).as_number() is None,
        (JsonView::Number { text: s, value: n }).as_bool() is None && (JsonView::Number {
            text: s,
            value: n,
        }).as_text() is None,
        JsonView::Array(entries).as_bool() is None && JsonView::Array(entries).as_text() is None
            && JsonView::Array(entries).as_number() is None,
        JsonView::Object(members).as_bool() is None && JsonView::Object(members).as_text() is None
            && JsonView::Object(members).as_number() is None,
{
}

/// A value is written without white space: an array between brackets and an object
/// between braces, with a comma before every entry but the first, and a colon
/// between a name and its value.
pub proof fn law_a_value_is_written_without_white_space(
    s: Seq<char>,
    n: Option<Number>,
    entry: JsonView,
    entries: Seq<JsonView>,
    members: Seq<(Seq<char>, JsonView)>,
)
    ensures
        rendered(JsonView::Null) == "null"@,
        rendered(JsonView::Bool(true)) == "true"@,
        rendered(JsonView::Bool(false)) == "false"@,
        rendered(JsonView::Number { text: s, value: n }) == s,
        rendered(JsonView::Text(s)) == quoted(s),
        rendered(JsonView::Array(Seq::empty())) == "[]"@,
        rendered(JsonView::Array(seq![entry])) == "["@ + rendered(entry) + "]"@,
        entries.len() > 0 ==> rendered(JsonView::Array(entries.push(entry))) == rendered(
            JsonView::Array(entries),
        ).drop_last() + ","@ + rendered(entry) + "]"@,
        rendered(JsonView::Object(Seq::empty())) == "{}"@,
        rendered(JsonView::Object(seq![(s, entry)])) == "{"@ + quoted(s) + ":"@ + rendered(entry)
            + "}"@,
        members.len() > 0 ==> rendered(JsonView::Object(members.push((s, entry)))) == rendered(
            JsonView::Object(members),
        ).drop_last() + ","@ + quoted(s) + ":"@ + rendered(entry) + "}"@,
{
    reveal_strlit("[");
    reveal_strlit("]");
    reveal_strlit("[]");
    reveal_strlit("{");
    reveal_strlit("}");
    reveal_strlit("{}");
    reveal_strlit(",");
    reveal_with_fuel(rendered, 2);
    reveal_with_fuel(rendered_entries, 3);
    reveal_with_fuel(rendered_members, 3);
    let one = seq![entry];
    assert(one.drop_last() =~= Seq::empty());
    assert(rendered_entries(one) =~= rendered(entry));
    assert(entries.push(entry).drop_last() =~= entries);
    let all = rendered(JsonView::Array(entries));
    assert(all.drop_last() =~= "["@ + rendered_entries(entries));
    assert(rendered(JsonView::Array(entries.push(entry))) =~= "["@ + rendered_entries(
        entries.push(entry),
    ) + "]"@);
    if entries.len() > 0 {
        assert(rendered(JsonView::Array(entries.push(entry))) =~= all.drop_last() + ","@ + rendered(
            entry,
        ) + "]"@);
    }
    assert(rendered(JsonView::Array(Seq::empty())) =~= "[]"@);
    assert(rendered(JsonView::Object(Seq::empty())) =~= "{}"@);
    let alone = seq![(s, entry)];
    assert(alone.drop_last() =~= Seq::empty());
    assert(rendered(JsonView::Object(alone)) =~= "{"@ + quoted(s) + ":"@ + rendered(entry) + "}"@);
    assert(members.push((s, entry)).drop_last() =~= members);
    let object = rendered(JsonView::Object(members));
    assert(object.drop_last() =~= "{"@ + rendered_members(members));
    if members.len() > 0 {
        assert(rendered(JsonView::Object(members.push((s, entry)))) =~= object.drop_last() + ","@
            + quoted(s) + ":"@ + rendered(entry) + "}"@);
    }
}

}
