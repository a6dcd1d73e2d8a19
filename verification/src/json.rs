//! JSON values.
use vstd::prelude::*;

use crate::number::are_equal;
use crate::number::equal;
use crate::text::same;

verus! {

/// A JSON number: an integer that is not negative, one that is, or a
/// floating-point number, kept as its IEEE 754 binary64 bit pattern.
#[derive(Clone, Copy, Debug, PartialEq, Eq, Structural)]
pub enum JsonNumber {
    Unsigned(u64),
    Negative(i64),
    Float(u64),
}

/// The mathematical value of a JSON value.
#[verifier::ext_equal]
pub ghost enum JsonView {
    Null,
    Bool(bool),
    Number(JsonNumber),
    Text(Seq<char>),
    Array(Seq<JsonView>),
    Object(Seq<(Seq<char>, JsonView)>),
}

/// A JSON value. The members of an object stand in the order in which the
/// object holds them.
#[derive(Debug)]
pub enum Json {
    Null,
    Bool(bool),
    Number(JsonNumber),
    Text(String),
    Array(Vec<Json>),
    Object(Vec<(String, Json)>),
}

/// The values of a list.
pub open spec fn item_views(items: Seq<Json>) -> Seq<JsonView> {
    Seq::new(items.len(), |i: int| items[i]@)
}

/// The keys and values of an object.
pub open spec fn member_views(members: Seq<(String, Json)>) -> Seq<(Seq<char>, JsonView)> {
    Seq::new(members.len(), |i: int| (members[i].0@, members[i].1@))
}

impl Json {
    /// The mathematical value of the JSON value.
    pub open spec fn view(self) -> JsonView
        decreases self,
    {
        match self {
            Json::Null => JsonView::Null,
            Json::Bool(value) => JsonView::Bool(value),
            Json::Number(number) => JsonView::Number(number),
            Json::Text(text) => JsonView::Text(text@),
            Json::Array(items) => JsonView::Array(
                Seq::new(
                    items@.len(),
                    |i: int|
                        if 0 <= i < items@.len() {
                            items@[i].view()
                        } else {
                            arbitrary()
                        },
                ),
            ),
            Json::Object(members) => JsonView::Object(
                Seq::new(
                    members@.len(),
                    |i: int|
                        if 0 <= i < members@.len() {
                            (members@[i].0@, members@[i].1.view())
                        } else {
                            arbitrary()
                        },
                ),
            ),
        }
    }
}

/// The value of an array or object is made of those of its parts.
pub proof fn lemma_parts(value: Json)
    ensures
        value matches Json::Array(items) ==> value@ == JsonView::Array(item_views(items@)),
        value matches Json::Object(members) ==> value@ == JsonView::Object(
            member_views(members@),
        ),
{
    match value {
        Json::Array(items) => {
            assert(value@->Array_0 =~= item_views(items@));
        },
        Json::Object(members) => {
            assert(value@->Object_0 =~= member_views(members@));
        },
        _ => {},
    }
}

impl Clone for Json {
    fn clone(&self) -> (r: Self)
        ensures
            r@ == self@,
        decreases self@,
    {
        proof {
            lemma_parts(*self);
        }
        let ghost whole = self@;
        let copy = match self {
            Json::Null => Json::Null,
            Json::Bool(value) => Json::Bool(*value),
            Json::Number(number) => Json::Number(*number),
            Json::Text(text) => Json::Text(text.clone()),
            Json::Array(items) => {
                let ghost views = item_views(items@);
                let mut out: Vec<Json> = Vec::new();
                let mut i: usize = 0;
                while i < items.len()
                    invariant
                        i <= items@.len(),
                        whole == self@,
                        whole == JsonView::Array(views),
                        views == item_views(items@),
                        item_views(out@) == views.take(i as int),
                    decreases items@.len() - i,
                {
                    let ghost before = out@;
                    assert(decreases_to!(whole => whole->Array_0));
                    assert(decreases_to!(views => views[i as int]));
                    out.push(items[i].clone());
                    i += 1;
                    assert(item_views(out@) =~= item_views(before).push(views[i - 1]));
                    assert(views.take(i as int) =~= views.take(i - 1).push(views[i - 1]));
                }
                assert(views.take(i as int) =~= views);
                Json::Array(out)
            },
            Json::Object(members) => {
                let ghost views = member_views(members@);
                let mut out: Vec<(String, Json)> = Vec::new();
                let mut i: usize = 0;
                while i < members.len()
                    invariant
                        i <= members@.len(),
                        whole == self@,
                        whole == JsonView::Object(views),
                        views == member_views(members@),
                        member_views(out@) == views.take(i as int),
                    decreases members@.len() - i,
                {
                    let ghost before = out@;
                    assert(decreases_to!(whole => whole->Object_0));
                    assert(decreases_to!(views => views[i as int]));
                    assert(decreases_to!(views[i as int] => views[i as int].1));
                    out.push((members[i].0.clone(), members[i].1.clone()));
                    i += 1;
                    assert(member_views(out@) =~= member_views(before).push(views[i - 1]));
                    assert(views.take(i as int) =~= views.take(i - 1).push(views[i - 1]));
                }
                assert(views.take(i as int) =~= views);
                Json::Object(out)
            },
        };
        proof {
            lemma_parts(copy);
        }
        copy
    }
}

#[verifier::external_type_specification]
#[verifier::external_body]
pub struct ExJsonValue(serde_json::Value);

/// What a value of the `serde_json` crate holds.
pub uninterp spec fn json_value(value: serde_json::Value) -> JsonView;

/// The value that `serde_json::from_str` reads from a text, or the message of
/// its error.
pub uninterp spec fn json_document(text: Seq<char>) -> Result<JsonView, Seq<char>>;

/// `serde_json::from_str` reads a value or gives an error. Which of the two,
/// and what they hold, depends on the text alone.
#[verifier::external_body]
fn read_value(text: &str) -> (r: Result<serde_json::Value, String>)
    ensures
        match r {
            Ok(value) => json_document(text@) == Ok::<JsonView, Seq<char>>(json_value(value)),
            Err(reason) => json_document(text@) == Err::<JsonView, Seq<char>>(reason@),
        },
{
    match serde_json::from_str(text) {
        Ok(value) => Ok(value),
        Err(error) => Err(error.to_string()),
    }
}

#[verifier::external_type_specification]
#[verifier::external_body]
pub struct ExJsonNumber(serde_json::Number);

/// What a number of the `serde_json` crate holds.
pub uninterp spec fn json_number(number: serde_json::Number) -> JsonNumber;

/// `serde_json::Number::as_u64` gives an integer that is not negative, and
/// nothing for any other number.
pub assume_specification[ serde_json::Number::as_u64 ](number: &serde_json::Number) -> (r: Option<
    u64,
>)
    ensures
        r == match json_number(*number) {
            JsonNumber::Unsigned(n) => Some(n),
            _ => None,
        },
;

/// `serde_json::Number::as_i64` gives an integer that fits, negative or not, and
/// nothing for any other number.
pub assume_specification[ serde_json::Number::as_i64 ](number: &serde_json::Number) -> (r: Option<
    i64,
>)
    ensures
        r == match json_number(*number) {
            JsonNumber::Unsigned(n) => if n <= i64::MAX {
                Some(n as i64)
            } else {
                None
            },
            JsonNumber::Negative(n) => Some(n),
            JsonNumber::Float(_) => None,
        },
;

/// `serde_json::Number::as_f64` gives any number as a floating-point one, and one
/// that is no integer as it is. What it makes of an integer is left unsaid.
#[verifier::external_body]
fn float_bits(number: &serde_json::Number) -> (r: Option<u64>)
    ensures
        r is Some,
        json_number(*number) matches JsonNumber::Float(bits) ==> r == Some(bits),
{
    number.as_f64().map(|float| float.to_bits())
}

fn to_number(number: &serde_json::Number) -> (r: JsonNumber)
    ensures
        r == json_number(*number),
{
    if let Some(n) = number.as_u64() {
        JsonNumber::Unsigned(n)
    } else if let Some(n) = number.as_i64() {
        JsonNumber::Negative(n)
    } else {
        match float_bits(number) {
            Some(bits) => JsonNumber::Float(bits),
            None => JsonNumber::Float(0),
        }
    }
}

/// A value of the `serde_json` crate taken apart by one level.
enum Shape {
    Null,
    Bool(bool),
    Number(serde_json::Number),
    Text(String),
    Array(Vec<serde_json::Value>),
    Object(Vec<(String, serde_json::Value)>),
}

impl Shape {
    /// The parts make up the value.
    spec fn makes(self, value: JsonView) -> bool {
        match (self, value) {
            (Shape::Null, JsonView::Null) => true,
            (Shape::Bool(a), JsonView::Bool(b)) => a == b,
            (Shape::Number(a), JsonView::Number(b)) => json_number(a) == b,
            (Shape::Text(a), JsonView::Text(b)) => a@ == b,
            (Shape::Array(a), JsonView::Array(b)) => {
                &&& a@.len() == b.len()
                &&& forall|i: int| #![trigger a@[i]] 0 <= i < b.len() ==> json_value(a@[i]) == b[i]
            },
            (Shape::Object(a), JsonView::Object(b)) => {
                &&& a@.len() == b.len()
                &&& forall|i: int|
                    #![trigger a@[i]]
                    0 <= i < b.len() ==> (a@[i].0@, json_value(a@[i].1)) == b[i]
            },
            _ => false,
        }
    }
}

/// Takes a value apart by its variant. `serde_json::Map::into_iter` hands out the
/// members of an object in their order.
#[verifier::external_body]
fn take_apart(value: serde_json::Value) -> (r: Shape)
    ensures
        r.makes(json_value(value)),
{
    match value {
        serde_json::Value::Null => Shape::Null,
        serde_json::Value::Bool(value) => Shape::Bool(value),
        serde_json::Value::Number(number) => Shape::Number(number),
        serde_json::Value::String(text) => Shape::Text(text),
        serde_json::Value::Array(items) => Shape::Array(items),
        serde_json::Value::Object(members) => Shape::Object(members.into_iter().collect()),
    }
}

fn to_json(value: serde_json::Value) -> (r: Json)
    ensures
        r@ == json_value(value),
    decreases json_value(value),
{
    let ghost whole = json_value(value);
    let json = match take_apart(value) {
        Shape::Null => Json::Null,
        Shape::Bool(value) => Json::Bool(value),
        Shape::Number(number) => Json::Number(to_number(&number)),
        Shape::Text(text) => Json::Text(text),
        Shape::Array(list) => {
            let ghost items = whole->Array_0;
            let mut out: Vec<Json> = Vec::new();
            for item in it: list
                invariant
                    whole == json_value(value),
                    whole == JsonView::Array(items),
                    it.seq() == list@,
                    list@.len() == items.len(),
                    forall|i: int|
                        #![trigger list@[i]]
                        0 <= i < items.len() ==> json_value(list@[i]) == items[i],
                    out@.len() == it.index(),
                    forall|i: int| #![trigger out@[i]] 0 <= i < out@.len() ==> out@[i]@ == items[i],
            {
                let ghost k = it.index() as int;
                assert(item == list@[k]);
                assert(decreases_to!(whole => whole->Array_0));
                assert(decreases_to!(items => items[k]));
                out.push(to_json(item));
            }
            assert(item_views(out@) =~= items);
            Json::Array(out)
        },
        Shape::Object(list) => {
            let ghost members = whole->Object_0;
            let mut out: Vec<(String, Json)> = Vec::new();
            for member in it: list
                invariant
                    whole == json_value(value),
                    whole == JsonView::Object(members),
                    it.seq() == list@,
                    list@.len() == members.len(),
                    forall|i: int|
                        #![trigger list@[i]]
                        0 <= i < members.len() ==> (list@[i].0@, json_value(list@[i].1))
                            == members[i],
                    out@.len() == it.index(),
                    forall|i: int|
                        #![trigger out@[i]]
                        0 <= i < out@.len() ==> (out@[i].0@, out@[i].1@) == members[i],
            {
                let ghost k = it.index() as int;
                assert(member == list@[k]);
                assert(decreases_to!(whole => whole->Object_0));
                assert(decreases_to!(members => members[k]));
                assert(decreases_to!(members[k] => members[k].1));
                let (key, child) = member;
                out.push((key, to_json(child)));
            }
            assert(member_views(out@) =~= members);
            Json::Object(out)
        },
    };
    proof {
        lemma_parts(json);
    }
    json
}

/// Reads a JSON text.
pub fn parse_json(text: &str) -> (r: Result<Json, String>)
    ensures
        match r {
            Ok(value) => json_document(text@) == Ok::<JsonView, Seq<char>>(value@),
            Err(reason) => json_document(text@) == Err::<JsonView, Seq<char>>(reason@),
        },
{
    match read_value(text) {
        Ok(value) => Ok(to_json(value)),
        Err(reason) => Err(reason),
    }
}

impl JsonView {
    /// The member of an object with the given key; null where there is none.
    pub open spec fn member(self, key: Seq<char>) -> JsonView {
        match self {
            JsonView::Object(members) => match first_member(members, key) {
                Some(value) => value,
                None => JsonView::Null,
            },
            _ => JsonView::Null,
        }
    }

    /// The text, if the value is one.
    pub open spec fn text(self) -> Option<Seq<char>> {
        match self {
            JsonView::Text(text) => Some(text),
            _ => None,
        }
    }
}

/// The first member with the given key, if there is one.
pub open spec fn first_member(members: Seq<(Seq<char>, JsonView)>, key: Seq<char>) -> Option<
    JsonView,
>
    decreases members.len(),
{
    if members.len() == 0 {
        None
    } else if members[0].0 == key {
        Some(members[0].1)
    } else {
        first_member(members.drop_first(), key)
    }
}

/// Equality of JSON numbers: integers are equal to themselves alone, and
/// floating-point numbers as floating-point numbers are.
pub open spec fn same_number(a: JsonNumber, b: JsonNumber) -> bool {
    match (a, b) {
        (JsonNumber::Float(p), JsonNumber::Float(q)) => equal(p, q),
        _ => a == b,
    }
}

/// Equality of JSON values: items are compared in their order, and members by
/// their keys. No object is taken to have a key twice.
pub open spec fn same_value(a: JsonView, b: JsonView) -> bool
    decreases a,
{
    match (a, b) {
        (JsonView::Number(p), JsonView::Number(q)) => same_number(p, q),
        (JsonView::Array(p), JsonView::Array(q)) => {
            &&& p.len() == q.len()
            &&& forall|i: int| 0 <= i < p.len() ==> same_value(#[trigger] p[i], q[i])
        },
        (JsonView::Object(p), JsonView::Object(q)) => {
            &&& p.len() == q.len()
            &&& forall|i: int|
                0 <= i < p.len() ==> (first_member(q, (#[trigger] p[i]).0) matches Some(other)
                    && same_value(p[i].1, other))
        },
        _ => a == b,
    }
}

fn are_same_numbers(a: JsonNumber, b: JsonNumber) -> (r: bool)
    ensures
        r == same_number(a, b),
{
    match (a, b) {
        (JsonNumber::Float(p), JsonNumber::Float(q)) => are_equal(p, q),
        _ => a == b,
    }
}

fn find_member<'a>(members: &'a Vec<(String, Json)>, key: &str) -> (r: Option<&'a Json>)
    ensures
        match r {
            Some(value) => first_member(member_views(members@), key@) == Some(value@),
            None => first_member(member_views(members@), key@) is None,
        },
{
    let ghost views = member_views(members@);
    let mut i: usize = 0;
    assert(views.skip(0) =~= views);
    while i < members.len()
        invariant
            i <= members@.len(),
            views == member_views(members@),
            first_member(views, key@) == first_member(views.skip(i as int), key@),
        decreases members@.len() - i,
    {
        assert(views.skip(i as int).drop_first() =~= views.skip(i + 1));
        if same(members[i].0.as_str(), key) {
            return Some(&members[i].1);
        }
        i += 1;
    }
    None
}

/// Compares two JSON values. No object is taken to have a key twice.
pub fn are_same(a: &Json, b: &Json) -> (r: bool)
    ensures
        r == same_value(a@, b@),
    decreases a@,
{
    proof {
        lemma_parts(*a);
        lemma_parts(*b);
    }
    match (a, b) {
        (Json::Null, Json::Null) => true,
        (Json::Bool(p), Json::Bool(q)) => *p == *q,
        (Json::Number(p), Json::Number(q)) => are_same_numbers(*p, *q),
        (Json::Text(p), Json::Text(q)) => same(p.as_str(), q.as_str()),
        (Json::Array(p), Json::Array(q)) => {
            if p.len() != q.len() {
                return false;
            }
            let ghost whole = a@;
            let ghost items = item_views(p@);
            let ghost others = item_views(q@);
            let mut i: usize = 0;
            while i < p.len()
                invariant
                    i <= p@.len(),
                    p@.len() == q@.len(),
                    whole == a@,
                    whole == JsonView::Array(items),
                    b@ == JsonView::Array(others),
                    items == item_views(p@),
                    others == item_views(q@),
                    forall|j: int| 0 <= j < i ==> same_value(#[trigger] items[j], others[j]),
                decreases p@.len() - i,
            {
                assert(decreases_to!(whole => whole->Array_0));
                assert(decreases_to!(items => items[i as int]));
                if !are_same(&p[i], &q[i]) {
                    assert(!same_value(items[i as int], others[i as int]));
                    return false;
                }
                i += 1;
            }
            true
        },
        (Json::Object(p), Json::Object(q)) => {
            if p.len() != q.len() {
                return false;
            }
            let ghost whole = a@;
            let ghost members = member_views(p@);
            let ghost others = member_views(q@);
            let mut i: usize = 0;
            while i < p.len()
                invariant
                    i <= p@.len(),
                    p@.len() == q@.len(),
                    whole == a@,
                    whole == JsonView::Object(members),
                    b@ == JsonView::Object(others),
                    members == member_views(p@),
                    others == member_views(q@),
                    forall|j: int|
                        0 <= j < i ==> (first_member(others, (#[trigger] members[j]).0) matches Some(
                            other,
                        ) && same_value(members[j].1, other)),
                decreases p@.len() - i,
            {
                assert(decreases_to!(whole => whole->Object_0));
                assert(decreases_to!(members => members[i as int]));
                assert(decreases_to!(members[i as int] => members[i as int].1));
                let ghost member = members[i as int];
                let agrees = match find_member(q, p[i].0.as_str()) {
                    Some(other) => are_same(&p[i].1, other),
                    None => false,
                };
                if !agrees {
                    assert(!(first_member(others, member.0) matches Some(other) && same_value(
                        member.1,
                        other,
                    )));
                    return false;
                }
                i += 1;
            }
            true
        },
        _ => false,
    }
}

/// A value that may be absent, and then counts as null.
pub open spec fn or_null(value: Option<&Json>) -> JsonView {
    match value {
        Some(value) => value@,
        None => JsonView::Null,
    }
}

/// Compares a JSON value that may be absent, and then counts as null, to another.
pub fn is_same_or_null(a: Option<&Json>, b: &Json) -> (r: bool)
    ensures
        r == same_value(or_null(a), b@),
{
    match a {
        Some(a) => are_same(a, b),
        None => are_same(&Json::Null, b),
    }
}

impl Json {
    /// The member of an object with the given key.
    pub fn member(&self, key: &str) -> (r: Option<&Json>)
        ensures
            or_null(r) == self@.member(key@),
    {
        proof {
            lemma_parts(*self);
        }
        match self {
            Json::Object(members) => find_member(members, key),
            _ => None,
        }
    }

    /// The text, if the value is one.
    pub fn text(&self) -> (r: Option<&str>)
        ensures
            match r {
                Some(text) => self@.text() == Some(text@),
                None => self@.text() is None,
            },
    {
        match self {
            Json::Text(text) => Some(text.as_str()),
            _ => None,
        }
    }

    /// The text of a member, if it is one.
    pub fn text_of(&self, key: &str) -> (r: Option<&str>)
        ensures
            match r {
                Some(text) => self@.member(key@).text() == Some(text@),
                None => self@.member(key@).text() is None,
            },
    {
        match self.member(key) {
            Some(value) => value.text(),
            None => None,
        }
    }

    /// Tells whether a member is the given text.
    pub fn has_text(&self, key: &str, text: &str) -> (r: bool)
        ensures
            r == (self@.member(key@).text() == Some(text@)),
    {
        match self.text_of(key) {
            Some(found) => same(found, text),
            None => false,
        }
    }
}

/// The value of a JSON value is made of those of its parts, in their order.
pub proof fn law_values_of_json(value: Json, i: int)
    ensures
        value matches Json::Null ==> value@ == JsonView::Null,
        value matches Json::Bool(b) ==> value@ == JsonView::Bool(b),
        value matches Json::Number(number) ==> value@ == JsonView::Number(number),
        value matches Json::Text(text) ==> value@ == JsonView::Text(text@),
        value matches Json::Array(items) ==> value@ is Array && value@->Array_0.len()
            == items@.len() && (0 <= i < items@.len() ==> value@->Array_0[i] == items@[i]@),
        value matches Json::Object(members) ==> value@ is Object && value@->Object_0.len()
            == members@.len() && (0 <= i < members@.len() ==> value@->Object_0[i] == (
            members@[i].0@,
            members@[i].1@,
        )),
        or_null(Some(&value)) == value@,
        or_null(None) == JsonView::Null,
{
    lemma_parts(value);
}

proof fn lemma_first_member(members: Seq<(Seq<char>, JsonView)>, key: Seq<char>)
    ensures
        forall|i: int|
            0 <= i < members.len() && (#[trigger] members[i]).0 == key && (forall|j: int|
                0 <= j < i ==> (#[trigger] members[j]).0 != key) ==> first_member(members, key)
                == Some(members[i].1),
        (forall|i: int| 0 <= i < members.len() ==> (#[trigger] members[i]).0 != key)
            ==> first_member(members, key) is None,
    decreases members.len(),
{
    if members.len() > 0 && members[0].0 != key {
        let rest = members.drop_first();
        lemma_first_member(rest, key);
        assert forall|i: int|
            0 <= i < members.len() && (#[trigger] members[i]).0 == key && (forall|j: int|
                0 <= j < i ==> (#[trigger] members[j]).0 != key) implies first_member(members, key)
            == Some(members[i].1) by {
            assert(rest[i - 1] == members[i]);
            assert forall|j: int| 0 <= j < i - 1 implies (#[trigger] rest[j]).0 != key by {
                assert(members[j + 1].0 != key);
            }
        }
        if forall|i: int| 0 <= i < members.len() ==> (#[trigger] members[i]).0 != key {
            assert forall|i: int| 0 <= i < rest.len() implies (#[trigger] rest[i]).0 != key by {
                assert(members[i + 1].0 != key);
            }
        }
    } else if members.len() > 0 {
        assert forall|i: int|
            0 <= i < members.len() && (#[trigger] members[i]).0 == key && (forall|j: int|
                0 <= j < i ==> (#[trigger] members[j]).0 != key) implies i == 0 by {
            if i > 0 {
                assert(members[0].0 != key);
            }
        }
    }
}

/// The member with a key is the value that stands under it, and null where nothing
/// does. What is no object has no members.
pub proof fn law_members(
    members: Seq<(Seq<char>, JsonView)>,
    key: Seq<char>,
    i: int,
    other: JsonView,
)
    ensures
        0 <= i < members.len() && members[i].0 == key && (forall|j: int|
            0 <= j < i ==> (#[trigger] members[j]).0 != key) ==> JsonView::Object(members).member(
            key,
        ) == members[i].1,
        (forall|j: int| 0 <= j < members.len() ==> (#[trigger] members[j]).0 != key)
            ==> JsonView::Object(members).member(key) == JsonView::Null,
        !(other is Object) ==> other.member(key) == JsonView::Null,
{
    lemma_first_member(members, key);
}

/// Only a text has a text, and it has itself.
pub proof fn law_texts(value: JsonView, text: Seq<char>)
    ensures
        value.text() == Some(text) <==> value == JsonView::Text(text),
        value.text() is None <==> !(value is Text),
{
}

/// Values of different kinds are never the same, and null is the same as null.
pub proof fn law_values_of_different_kinds_differ(a: JsonView, b: JsonView)
    requires
        same_value(a, b),
    ensures
        a is Null <==> b is Null,
        a is Bool <==> b is Bool,
        a is Number <==> b is Number,
        a is Text <==> b is Text,
        a is Array <==> b is Array,
        a is Object <==> b is Object,
{
}

/// Null, truth values and texts are the same as what they equal. So are integers;
/// floating-point numbers are compared as such, and are never the same as integers.
pub proof fn law_same_plain_values(
    p: bool,
    q: bool,
    s: Seq<char>,
    t: Seq<char>,
    m: JsonNumber,
    n: JsonNumber,
)
    ensures
        same_value(JsonView::Null, JsonView::Null),
        same_value(JsonView::Bool(p), JsonView::Bool(q)) <==> p == q,
        same_value(JsonView::Text(s), JsonView::Text(t)) <==> s == t,
        !(m is Float && n is Float) ==> (same_value(JsonView::Number(m), JsonView::Number(n))
            <==> m == n),
        m matches JsonNumber::Float(a) ==> (n matches JsonNumber::Float(b) ==> (same_value(
            JsonView::Number(m),
            JsonView::Number(n),
        ) <==> equal(a, b))),
{
}

/// Lists are the same if their items are, one by one.
pub proof fn law_same_lists(p: Seq<JsonView>, q: Seq<JsonView>)
    ensures
        same_value(JsonView::Array(p), JsonView::Array(q)) <==> p.len() == q.len() && forall|i: int|
            0 <= i < p.len() ==> same_value(#[trigger] p[i], q[i]),
{
}

/// Objects are the same if they have as many members, and each member of the one is
/// the same as the member of the other with its key, wherever that stands.
pub proof fn law_same_objects(
    p: Seq<(Seq<char>, JsonView)>,
    q: Seq<(Seq<char>, JsonView)>,
)
    requires
        forall|i: int, j: int|
            #![trigger q[i], q[j]]
            0 <= i < j < q.len() ==> q[i].0 != q[j].0,
    ensures
        same_value(JsonView::Object(p), JsonView::Object(q)) <==> p.len() == q.len()
            && forall|i: int|
            #![trigger p[i]]
            0 <= i < p.len() ==> exists|j: int|
                #![trigger q[j]]
                0 <= j < q.len() && q[j].0 == p[i].0 && same_value(p[i].1, q[j].1),
{
    assert forall|i: int| #![trigger p[i]] 0 <= i < p.len() implies (first_member(
        q,
        p[i].0,
    ) matches Some(other) && same_value(p[i].1, other)) == (exists|j: int|
        #![trigger q[j]]
        0 <= j < q.len() && q[j].0 == p[i].0 && same_value(p[i].1, q[j].1)) by {
        let key = p[i].0;
        lemma_first_member(q, key);
        if exists|j: int| 0 <= j < q.len() && (#[trigger] q[j]).0 == key {
            let j = choose|j: int| 0 <= j < q.len() && (#[trigger] q[j]).0 == key;
            assert forall|k: int| 0 <= k < j implies (#[trigger] q[k]).0 != key by {
                assert(q[k].0 != q[j].0);
            }
            assert(first_member(q, key) == Some(q[j].1));
            assert forall|k: int| 0 <= k < q.len() && (#[trigger] q[k]).0 == key implies k == j by {
                if k < j {
                    assert(q[k].0 != q[j].0);
                } else if j < k {
                    assert(q[j].0 != q[k].0);
                }
            }
        }
    }
}

/// What is asked of JSON values.
pub proof fn law_functions_on_json(
    a: &Json,
    b: &Json,
    key: &str,
    same_values: bool,
    copy: Json,
    member: Option<&Json>,
    text: Option<&str>,
    of: Option<&str>,
    has: bool,
)
    requires
        call_ensures(are_same, (a, b), same_values),
        call_ensures(Json::clone, (a,), copy),
        call_ensures(Json::member, (a, key), member),
        call_ensures(Json::text, (a,), text),
        call_ensures(Json::text_of, (a, key), of),
        call_ensures(Json::has_text, (a, key, key), has),
    ensures
        same_values <==> same_value(a@, b@),
        copy@ == a@,
        or_null(member) == a@.member(key@),
        text is Some <==> *a is Text,
        text matches Some(t) ==> a@ == JsonView::Text(t@),
        of is Some <==> a@.member(key@) is Text,
        of matches Some(t) ==> a@.member(key@) == JsonView::Text(t@),
        has <==> a@.member(key@) == JsonView::Text(key@),
{
}

/// A text is read as the value that it holds, and a value that may be absent is compared
/// as null where it is.
pub proof fn law_texts_that_are_read(
    text: &str,
    r: Result<Json, String>,
    a: Option<&Json>,
    b: &Json,
    agrees: bool,
)
    requires
        call_ensures(parse_json, (text,), r),
        call_ensures(is_same_or_null, (a, b), agrees),
    ensures
        r matches Ok(value) ==> json_document(text@) == Ok::<JsonView, Seq<char>>(value@),
        r matches Err(reason) ==> json_document(text@) == Err::<JsonView, Seq<char>>(reason@),
        a matches Some(value) ==> (agrees <==> same_value(value@, b@)),
        a is None ==> (agrees <==> *b is Null),
{
    law_values_of_json(*b, 0);
    if agrees && a is None {
        law_values_of_different_kinds_differ(JsonView::Null, b@);
    }
}

} // verus!
