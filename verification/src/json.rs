//! JSON documents as the gateway sees them: a value tree of the crate's own,
//! its mathematical model, member lookup, and reading a document from text.

use crate::text::same_text;
use vstd::prelude::*;

verus! {

/// The model of a JSON number.
pub enum Numeral {
    /// An integer that is not negative.
    Natural(u64),
    /// A negative integer.
    Negative(i64),
    /// Any other number, as the text it is written with.
    Decimal(Seq<char>),
}

impl Numeral {
    /// The number as a signed 64-bit integer, where it is an integer and
    /// fits.
    pub open spec fn as_integer(self) -> Option<i64> {
        match self {
            Numeral::Natural(n) => if n <= i64::MAX {
                Some(n as i64)
            } else {
                None
            },
            Numeral::Negative(i) => Some(i),
            Numeral::Decimal(_) => None,
        }
    }

    /// The numeral of an integer.
    pub open spec fn of_integer(i: i64) -> Numeral {
        if i >= 0 {
            Numeral::Natural(i as u64)
        } else {
            Numeral::Negative(i)
        }
    }
}

/// The model of a JSON document. An object is the sequence of its members in
/// document order.
pub enum Json {
    Null,
    Bool(bool),
    Number(Numeral),
    Text(Seq<char>),
    Array(Seq<Json>),
    Object(Seq<(Seq<char>, Json)>),
}

/// The six kinds of JSON value.
#[derive(Clone, Copy, Debug, PartialEq, Eq, Structural)]
pub enum JsonKind {
    Null,
    Bool,
    Number,
    Text,
    Array,
    Object,
}

/// The value of the first member called `name`, if there is one.
pub open spec fn first_member(members: Seq<(Seq<char>, Json)>, name: Seq<char>) -> Option<Json>
    decreases members.len(),
{
    if members.len() == 0 {
        None
    } else if members[0].0 == name {
        Some(members[0].1)
    } else {
        first_member(members.skip(1), name)
    }
}

impl Json {
    pub open spec fn kind(self) -> JsonKind {
        match self {
            Json::Null => JsonKind::Null,
            Json::Bool(_) => JsonKind::Bool,
            Json::Number(_) => JsonKind::Number,
            Json::Text(_) => JsonKind::Text,
            Json::Array(_) => JsonKind::Array,
            Json::Object(_) => JsonKind::Object,
        }
    }

    /// The member called `name` of an object; `None` for a missing member and
    /// for a value that is no object.
    pub open spec fn member(self, name: Seq<char>) -> Option<Json> {
        match self {
            Json::Object(members) => first_member(members, name),
            _ => None,
        }
    }
}

/// A JSON number.
#[derive(Debug, PartialEq, Eq)]
pub enum JsonNumber {
    /// An integer that is not negative.
    Natural(u64),
    /// A negative integer.
    Negative(i64),
    /// Any other number, as the text it is written with.
    Decimal(String),
}

impl View for JsonNumber {
    type V = Numeral;

    open spec fn view(&self) -> Numeral {
        match self {
            JsonNumber::Natural(n) => Numeral::Natural(*n),
            JsonNumber::Negative(i) => Numeral::Negative(*i),
            JsonNumber::Decimal(text) => Numeral::Decimal(text@),
        }
    }
}

impl JsonNumber {
    /// The number as a signed 64-bit integer, where it is an integer and
    /// fits.
    pub fn as_integer(&self) -> (r: Option<i64>)
        ensures
            r == self@.as_integer(),
    {
        match self {
            JsonNumber::Natural(n) => {
                if *n <= i64::MAX as u64 {
                    Some(*n as i64)
                } else {
                    None
                }
            },
            JsonNumber::Negative(i) => Some(*i),
            JsonNumber::Decimal(_) => None,
        }
    }

    /// The number that stands for the integer `i`.
    pub fn of_integer(i: i64) -> (r: JsonNumber)
        ensures
            r@ == Numeral::of_integer(i),
    {
        if i >= 0 {
            JsonNumber::Natural(i as u64)
        } else {
            JsonNumber::Negative(i)
        }
    }
}

/// One `name: value` pair of an object.
#[derive(Debug, PartialEq, Eq)]
pub struct Member {
    pub name: String,
    pub value: JsonValue,
}

/// A JSON document.
#[derive(Debug, PartialEq, Eq)]
pub enum JsonValue {
    Null,
    Bool(bool),
    Number(JsonNumber),
    Text(String),
    Array(Vec<JsonValue>),
    Object(Vec<Member>),
}

impl View for Member {
    type V = (Seq<char>, Json);

    open spec fn view(&self) -> (Seq<char>, Json) {
        (self.name@, self.value@)
    }
}

impl View for JsonValue {
    type V = Json;

    open spec fn view(&self) -> Json
        decreases self,
    {
        match self {
            JsonValue::Null => Json::Null,
            JsonValue::Bool(b) => Json::Bool(*b),
            JsonValue::Number(n) => Json::Number(n@),
            JsonValue::Text(t) => Json::Text(t@),
            JsonValue::Array(items) => Json::Array(items_view(items@)),
            JsonValue::Object(members) => Json::Object(members_view(members@)),
        }
    }
}

/// The models of a run of values, in order.
pub open spec fn items_view(items: Seq<JsonValue>) -> Seq<Json>
    decreases items,
{
    if items.len() == 0 {
        Seq::empty()
    } else {
        items_view(items.drop_last()).push(items.last()@)
    }
}

/// The models of a run of members, in order.
pub open spec fn members_view(members: Seq<Member>) -> Seq<(Seq<char>, Json)>
    decreases members,
{
    if members.len() == 0 {
        Seq::empty()
    } else {
        members_view(members.drop_last()).push((members.last().name@, members.last().value@))
    }
}

/// `items_view` works item by item.
pub proof fn lemma_items_view(items: Seq<JsonValue>)
    ensures
        items_view(items).len() == items.len(),
        forall|i: int| 0 <= i < items.len() ==> (#[trigger] items_view(items)[i]) == items[i]@,
    decreases items.len(),
{
    reveal_with_fuel(items_view, 2);
    if items.len() > 0 {
        lemma_items_view(items.drop_last());
    }
}

/// `members_view` works member by member.
pub proof fn lemma_members_view(members: Seq<Member>)
    ensures
        members_view(members).len() == members.len(),
        forall|i: int|
            0 <= i < members.len() ==> (#[trigger] members_view(members)[i]) == members[i]@,
    decreases members.len(),
{
    reveal_with_fuel(members_view, 2);
    if members.len() > 0 {
        lemma_members_view(members.drop_last());
    }
}

/// Adding an item to a run adds its model to the run's models.
pub proof fn lemma_items_view_push(items: Seq<JsonValue>, item: JsonValue)
    ensures
        items_view(items.push(item)) == items_view(items).push(item@),
{
    reveal_with_fuel(items_view, 2);
    assert(items.push(item).drop_last() =~= items);
}

/// Adding a member to a run adds its model to the run's models.
pub proof fn lemma_members_view_push(members: Seq<Member>, member: Member)
    ensures
        members_view(members.push(member)) == members_view(members).push(member@),
{
    reveal_with_fuel(members_view, 2);
    assert(members.push(member).drop_last() =~= members);
}

impl JsonValue {
    /// The kind of this value.
    pub fn kind(&self) -> (r: JsonKind)
        ensures
            r == self@.kind(),
    {
        match self {
            JsonValue::Null => JsonKind::Null,
            JsonValue::Bool(_) => JsonKind::Bool,
            JsonValue::Number(_) => JsonKind::Number,
            JsonValue::Text(_) => JsonKind::Text,
            JsonValue::Array(_) => JsonKind::Array,
            JsonValue::Object(_) => JsonKind::Object,
        }
    }

    /// The member called `name`: the first one, should the object repeat a
    /// name. `None` when this value is no object or has no such member.
    pub fn member(&self, name: &str) -> (r: Option<&JsonValue>)
        ensures
            match r {
                Some(value) => self@.member(name@) == Some(value@),
                None => self@.member(name@).is_none(),
            },
    {
        match self {
            JsonValue::Object(members) => {
                find_member(members, name)
            },
            _ => None,
        }
    }

    /// The number that stands for the integer `i`.
    pub fn integer(i: i64) -> (r: JsonValue)
        ensures
            r@ == Json::Number(Numeral::of_integer(i)),
    {
        JsonValue::Number(JsonNumber::of_integer(i))
    }

    /// The object without members, `{}`.
    pub fn empty_object() -> (r: JsonValue)
        ensures
            r@ == Json::Object(Seq::empty()),
    {
        let members: Vec<Member> = Vec::new();
        JsonValue::Object(members)
    }
}

/// The value of the first of `members` called `name`.
pub fn find_member<'a>(members: &'a Vec<Member>, name: &str) -> (r: Option<&'a JsonValue>)
    ensures
        match r {
            Some(value) => first_member(members_view(members@), name@) == Some(value@),
            None => first_member(members_view(members@), name@).is_none(),
        },
{
    let ghost all = members_view(members@);
    let mut i: usize = 0;
    proof {
        lemma_members_view(members@);
        assert(all.skip(0) =~= all);
    }
    while i < members.len()
        invariant
            i <= members.len(),
            all == members_view(members@),
            all.len() == members.len(),
            forall|j: int| 0 <= j < members.len() ==> (#[trigger] all[j]) == members[j]@,
            first_member(all, name@) == first_member(all.skip(i as int), name@),
        decreases members.len() - i,
    {
        assert(all.skip(i as int).skip(1) =~= all.skip(i as int + 1));
        assert(all.skip(i as int)[0] == members[i as int]@);
        if same_text(members[i].name.as_str(), name) {
            return Some(&members[i].value);
        }
        i += 1;
    }
    None
}

/// What a text holds when read as one JSON document: the document, or `None`
/// where the text is not well-formed JSON.
pub uninterp spec fn json_of_text(text: Seq<char>) -> Option<Json>;

/// `serde_json`'s document type, carried between the parser and `lift`.
#[verifier::external_type_specification]
#[verifier::external_body]
pub struct ExDocument(serde_json::Value);

/// `serde_json`'s number type, carried from `lift` to `lift_number`.
#[verifier::external_type_specification]
#[verifier::external_body]
pub struct ExNumber(serde_json::Number);

/// Rebuilds a `serde_json::Number` as a `JsonNumber`, kind by kind: the
/// unsigned integer that `as_u64` yields, else the negative integer that
/// `as_i64` yields, else the text that `serde_json` prints for the number.
#[verifier::external_body]
fn lift_number(number: &serde_json::Number) -> JsonNumber {
    match (number.as_u64(), number.as_i64()) {
        (Some(n), _) => JsonNumber::Natural(n),
        (None, Some(i)) => JsonNumber::Negative(i),
        (None, None) => JsonNumber::Decimal(number.to_string()),
    }
}

/// Rebuilds a `serde_json::Value` as a `JsonValue`, variant by variant.
/// Members keep the order in which `serde_json::Map::iter` hands them out.
#[verifier::external_body]
pub(crate) fn lift(document: &serde_json::Value) -> JsonValue {
    match document {
        serde_json::Value::Null => JsonValue::Null,
        serde_json::Value::Bool(b) => JsonValue::Bool(*b),
        serde_json::Value::Number(n) => JsonValue::Number(lift_number(n)),
        serde_json::Value::String(s) => JsonValue::Text(s.clone()),
        serde_json::Value::Array(a) => JsonValue::Array(a.iter().map(lift).collect()),
        serde_json::Value::Object(o) => JsonValue::Object(
            o.iter().map(|(k, v)| Member { name: k.clone(), value: lift(v) }).collect(),
        ),
    }
}

/// Calls `serde_json::from_str` for a `serde_json::Value` and rebuilds the
/// outcome with `lift`. The parser looks at the text alone, so the contract
/// gives its outcome the name `json_of_text`: `Some` of the document read, or
/// `None` where `serde_json` reports an error.
#[verifier::external_body]
fn read_text(text: &str) -> (r: Option<JsonValue>)
    ensures
        match r {
            Some(document) => json_of_text(text@) == Some(document@),
            None => json_of_text(text@).is_none(),
        },
{
    match serde_json::from_str::<serde_json::Value>(text) {
        Ok(document) => Some(lift(&document)),
        Err(_) => None,
    }
}

/// Reads `text` as one JSON document.
pub fn parse(text: &str) -> (r: Option<JsonValue>)
    ensures
        match r {
            Some(document) => json_of_text(text@) == Some(document@),
            None => json_of_text(text@).is_none(),
        },
{
    read_text(text)
}

} // verus!
