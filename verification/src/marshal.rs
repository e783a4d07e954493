//! The marshaller: typed values, and the two generic conversions between
//! JSON documents and typed values that every method shares.

use crate::json::{
    find_member, first_member, items_view, lemma_items_view, lemma_items_view_push,
    lemma_members_view_push, members_view, Json, JsonKind, JsonValue, Member, Numeral,
};
use crate::schema::{fields_view, lemma_fields_view, texts_view, Shape, ShapeKind, ShapeModel};
use crate::text::same_text;
use vstd::prelude::*;

verus! {

/// The model of a typed value.
pub enum Typed {
    Bool(bool),
    Integer(i64),
    Text(Seq<char>),
    /// The symbol chosen.
    Enum(Seq<char>),
    List(Seq<Typed>),
    /// The fields by name, in the order of the shape.
    Message(Seq<(Seq<char>, Typed)>),
}

/// One named field of a typed message.
#[derive(Debug, PartialEq, Eq)]
pub struct TypedField {
    pub name: String,
    pub value: TypedValue,
}

/// A request or response value, typed after a shape.
#[derive(Debug, PartialEq, Eq)]
pub enum TypedValue {
    Bool(bool),
    Integer(i64),
    Text(String),
    Enum(String),
    List(Vec<TypedValue>),
    Message(Vec<TypedField>),
}

impl View for TypedField {
    type V = (Seq<char>, Typed);

    open spec fn view(&self) -> (Seq<char>, Typed) {
        (self.name@, self.value@)
    }
}

impl View for TypedValue {
    type V = Typed;

    open spec fn view(&self) -> Typed
        decreases self,
    {
        match self {
            TypedValue::Bool(b) => Typed::Bool(*b),
            TypedValue::Integer(i) => Typed::Integer(*i),
            TypedValue::Text(t) => Typed::Text(t@),
            TypedValue::Enum(symbol) => Typed::Enum(symbol@),
            TypedValue::List(values) => Typed::List(values_view(values@)),
            TypedValue::Message(fields) => Typed::Message(typed_fields_view(fields@)),
        }
    }
}

/// The models of a run of typed values, in order.
pub open spec fn values_view(values: Seq<TypedValue>) -> Seq<Typed>
    decreases values,
{
    if values.len() == 0 {
        Seq::empty()
    } else {
        values_view(values.drop_last()).push(values.last()@)
    }
}

/// The models of a run of typed fields, in order.
pub open spec fn typed_fields_view(fields: Seq<TypedField>) -> Seq<(Seq<char>, Typed)>
    decreases fields,
{
    if fields.len() == 0 {
        Seq::empty()
    } else {
        typed_fields_view(fields.drop_last()).push((fields.last().name@, fields.last().value@))
    }
}

/// `values_view` works value by value.
pub proof fn lemma_values_view(values: Seq<TypedValue>)
    ensures
        values_view(values).len() == values.len(),
        forall|i: int| 0 <= i < values.len() ==> (#[trigger] values_view(values)[i]) == values[i]@,
    decreases values.len(),
{
    reveal_with_fuel(values_view, 2);
    if values.len() > 0 {
        lemma_values_view(values.drop_last());
    }
}

/// `typed_fields_view` works field by field.
pub proof fn lemma_typed_fields_view(fields: Seq<TypedField>)
    ensures
        typed_fields_view(fields).len() == fields.len(),
        forall|i: int|
            0 <= i < fields.len() ==> (#[trigger] typed_fields_view(fields)[i]) == fields[i]@,
    decreases fields.len(),
{
    reveal_with_fuel(typed_fields_view, 2);
    if fields.len() > 0 {
        lemma_typed_fields_view(fields.drop_last());
    }
}

/// One step of the way from a document's root to a value inside it.
pub enum Step {
    /// Into the member of this name.
    Field(Seq<char>),
    /// Into the item at this index.
    Index(nat),
}

/// One step of a field path.
#[derive(Debug, PartialEq, Eq)]
pub enum PathStep {
    Field(String),
    Index(usize),
}

impl View for PathStep {
    type V = Step;

    open spec fn view(&self) -> Step {
        match self {
            PathStep::Field(name) => Step::Field(name@),
            PathStep::Index(index) => Step::Index(*index as nat),
        }
    }
}

/// The models of a run of path steps, in order.
pub open spec fn path_view(path: Seq<PathStep>) -> Seq<Step> {
    Seq::new(path.len(), |i: int| path[i]@)
}

/// The model of a decoding failure: where in the document it happened, what
/// the shape asked for there, and what the document holds there.
pub struct Mismatch {
    pub path: Seq<Step>,
    pub expected: ShapeKind,
    pub actual: JsonKind,
}

impl Mismatch {
    /// The same failure, seen from one step further out.
    pub open spec fn under(self, step: Step) -> Mismatch {
        Mismatch { path: seq![step] + self.path, expected: self.expected, actual: self.actual }
    }
}

/// A document value that its shape cannot take.
#[derive(Debug, PartialEq, Eq)]
pub struct DecodeError {
    /// The way from the root of the document to the offending value.
    pub path: Vec<PathStep>,
    pub expected: ShapeKind,
    pub actual: JsonKind,
}

impl View for DecodeError {
    type V = Mismatch;

    open spec fn view(&self) -> Mismatch {
        Mismatch { path: path_view(self.path@), expected: self.expected, actual: self.actual }
    }
}

/// The failure of `json` to be of `shape`, at the place where both stand.
pub open spec fn mismatch(shape: ShapeModel, json: Json) -> Mismatch {
    Mismatch { path: Seq::empty(), expected: shape.kind(), actual: json.kind() }
}

/// The zero value of a shape: `false`, `0`, the empty text, an enum's first
/// symbol, the empty list, and the message whose every field is zero.
pub open spec fn zero(shape: ShapeModel) -> Typed
    decreases shape,
{
    match shape {
        ShapeModel::Bool => Typed::Bool(false),
        ShapeModel::Integer => Typed::Integer(0),
        ShapeModel::Text => Typed::Text(Seq::empty()),
        ShapeModel::Enum(symbols) => Typed::Enum(
            if symbols.len() > 0 {
                symbols[0]
            } else {
                Seq::empty()
            },
        ),
        ShapeModel::Repeated(_) => Typed::List(Seq::empty()),
        ShapeModel::Message(fields) => Typed::Message(zero_fields(fields)),
    }
}

/// The zero value of each of `fields`, under the field's name.
pub open spec fn zero_fields(fields: Seq<(Seq<char>, ShapeModel)>) -> Seq<(Seq<char>, Typed)>
    decreases fields,
{
    if fields.len() == 0 {
        Seq::empty()
    } else {
        zero_fields(fields.drop_last()).push((fields.last().0, zero(fields.last().1)))
    }
}

/// What decoding `json` after `shape` yields.
///
/// A scalar takes a document value of its own kind: a `Bool` a boolean, an
/// `Integer` a number that is an integer of 64 bits, a `Text` a string, an
/// `Enum` a string that is one of its symbols. A `Repeated` takes an array and decodes every item. A
/// `Message` takes an object: each field decodes the member of its name,
/// or is zero where the object has no such member; members that no field
/// names are passed over. Anything else is a `Mismatch`, and of several the
/// first in the order of the shape is reported.
pub open spec fn decode(json: Json, shape: ShapeModel) -> Result<Typed, Mismatch>
    decreases shape, 0nat,
{
    match shape {
        ShapeModel::Bool => match json {
            Json::Bool(b) => Ok(Typed::Bool(b)),
            _ => Err(mismatch(shape, json)),
        },
        ShapeModel::Integer => match json {
            Json::Number(number) => match number.as_integer() {
                Some(i) => Ok(Typed::Integer(i)),
                None => Err(mismatch(shape, json)),
            },
            _ => Err(mismatch(shape, json)),
        },
        ShapeModel::Text => match json {
            Json::Text(t) => Ok(Typed::Text(t)),
            _ => Err(mismatch(shape, json)),
        },
        ShapeModel::Enum(symbols) => match json {
            Json::Text(t) => if symbols.contains(t) {
                Ok(Typed::Enum(t))
            } else {
                Err(mismatch(shape, json))
            },
            _ => Err(mismatch(shape, json)),
        },
        ShapeModel::Repeated(element) => match json {
            Json::Array(items) => match decode_items(items, *element) {
                Ok(values) => Ok(Typed::List(values)),
                Err(e) => Err(e),
            },
            _ => Err(mismatch(shape, json)),
        },
        ShapeModel::Message(fields) => match json {
            Json::Object(members) => match decode_fields(members, fields) {
                Ok(values) => Ok(Typed::Message(values)),
                Err(e) => Err(e),
            },
            _ => Err(mismatch(shape, json)),
        },
    }
}

/// What decoding each of `items` after `element` yields: every value, or the
/// failure of the first item that has one.
pub open spec fn decode_items(items: Seq<Json>, element: ShapeModel) -> Result<Seq<Typed>, Mismatch>
    decreases element, items.len() + 1,
{
    if items.len() == 0 {
        Ok(Seq::empty())
    } else {
        match decode_items(items.drop_last(), element) {
            Err(e) => Err(e),
            Ok(values) => match decode(items.last(), element) {
                Ok(value) => Ok(values.push(value)),
                Err(e) => Err(e.under(Step::Index((items.len() - 1) as nat))),
            },
        }
    }
}

/// What decoding `members` after `fields` yields: a value for every field, or
/// the failure of the first field that has one.
pub open spec fn decode_fields(
    members: Seq<(Seq<char>, Json)>,
    fields: Seq<(Seq<char>, ShapeModel)>,
) -> Result<Seq<(Seq<char>, Typed)>, Mismatch>
    decreases fields, 0nat,
{
    if fields.len() == 0 {
        Ok(Seq::empty())
    } else {
        match decode_fields(members, fields.drop_last()) {
            Err(e) => Err(e),
            Ok(values) => match first_member(members, fields.last().0) {
                None => Ok(values.push((fields.last().0, zero(fields.last().1)))),
                Some(json) => match decode(json, fields.last().1) {
                    Ok(value) => Ok(values.push((fields.last().0, value))),
                    Err(e) => Err(e.under(Step::Field(fields.last().0))),
                },
            },
        }
    }
}

/// The document that stands for `value`: each scalar as the JSON value of
/// its kind, an enum as its symbol, a list as an array, and a message as an
/// object with one member for every field, in the order of the fields.
pub open spec fn encode(value: Typed) -> Json
    decreases value,
{
    match value {
        Typed::Bool(b) => Json::Bool(b),
        Typed::Integer(i) => Json::Number(Numeral::of_integer(i)),
        Typed::Text(t) => Json::Text(t),
        Typed::Enum(symbol) => Json::Text(symbol),
        Typed::List(values) => Json::Array(encode_items(values)),
        Typed::Message(fields) => Json::Object(encode_fields(fields)),
    }
}

/// The documents of `values`, in order.
pub open spec fn encode_items(values: Seq<Typed>) -> Seq<Json>
    decreases values,
{
    if values.len() == 0 {
        Seq::empty()
    } else {
        encode_items(values.drop_last()).push(encode(values.last()))
    }
}

/// The members that stand for `fields`, in order.
pub open spec fn encode_fields(fields: Seq<(Seq<char>, Typed)>) -> Seq<(Seq<char>, Json)>
    decreases fields,
{
    if fields.len() == 0 {
        Seq::empty()
    } else {
        encode_fields(fields.drop_last()).push((fields.last().0, encode(fields.last().1)))
    }
}

/// The model of what `decode_request` returns.
pub open spec fn decoded(r: Result<TypedValue, DecodeError>) -> Result<Typed, Mismatch> {
    match r {
        Ok(value) => Ok(value@),
        Err(e) => Err(e@),
    }
}

/// Adding a value to a run adds its model to the run's models.
pub proof fn lemma_values_view_push(values: Seq<TypedValue>, value: TypedValue)
    ensures
        values_view(values.push(value)) == values_view(values).push(value@),
{
    reveal_with_fuel(values_view, 2);
    assert(values.push(value).drop_last() =~= values);
}

/// Adding a field to a run adds its model to the run's models.
pub proof fn lemma_typed_fields_view_push(fields: Seq<TypedField>, field: TypedField)
    ensures
        typed_fields_view(fields.push(field)) == typed_fields_view(fields).push(field@),
{
    reveal_with_fuel(typed_fields_view, 2);
    assert(fields.push(field).drop_last() =~= fields);
}

/// Whether `text` is one of `symbols`.
pub fn has_symbol(symbols: &Vec<String>, text: &str) -> (r: bool)
    ensures
        r == texts_view(symbols@).contains(text@),
{
    let mut i: usize = 0;
    while i < symbols.len()
        invariant
            i <= symbols.len(),
            forall|j: int| 0 <= j < i ==> texts_view(symbols@)[j] != text@,
        decreases symbols.len() - i,
    {
        if same_text(symbols[i].as_str(), text) {
            assert(texts_view(symbols@)[i as int] == text@);
            return true;
        }
        i += 1;
    }
    false
}

/// The zero value of `shape`.
pub fn zero_value(shape: &Shape) -> (r: TypedValue)
    ensures
        r@ == zero(shape@),
    decreases shape,
{
    match shape {
        Shape::Bool => TypedValue::Bool(false),
        Shape::Integer => TypedValue::Integer(0),
        Shape::Text => TypedValue::Text(String::new()),
        Shape::Enum(symbols) => {
            if symbols.len() > 0 {
                TypedValue::Enum(symbols[0].clone())
            } else {
                TypedValue::Enum(String::new())
            }
        },
        Shape::Repeated(_) => TypedValue::List(Vec::new()),
        Shape::Message(fields) => {
            let ghost model = fields_view(fields@);
            let mut out: Vec<TypedField> = Vec::new();
            let mut i: usize = 0;
            proof {
                lemma_fields_view(fields@);
                assert(model.take(0) =~= Seq::empty());
            }
            while i < fields.len()
                invariant
                    i <= fields.len(),
                    *shape is Message,
                    shape->Message_0 == *fields,
                    model == fields_view(fields@),
                    model.len() == fields.len(),
                    forall|j: int| 0 <= j < fields.len() ==> (#[trigger] model[j]) == fields[j]@,
                    typed_fields_view(out@) == zero_fields(model.take(i as int)),
                decreases fields.len() - i,
            {
                proof {
                    vstd::std_specs::vec::axiom_vec_index_decreases(*fields, i as int);
                    assert(decreases_to!(*shape => shape->Message_0));
                }
                let value = zero_value(&fields[i].shape);
                let field = TypedField { name: fields[i].name.clone(), value };
                proof {
                    lemma_typed_fields_view_push(out@, field);
                    assert(model.take(i as int + 1).drop_last() =~= model.take(i as int));
                }
                out.push(field);
                i += 1;
            }
            assert(model.take(fields.len() as int) =~= model);
            TypedValue::Message(out)
        },
    }
}

/// Builds the document that stands for `value`. There is no value it cannot
/// encode.
pub fn encode_response(value: &TypedValue) -> (r: JsonValue)
    ensures
        r@ == encode(value@),
    decreases value,
{
    match value {
        TypedValue::Bool(b) => JsonValue::Bool(*b),
        TypedValue::Integer(i) => JsonValue::integer(*i),
        TypedValue::Text(t) => JsonValue::Text(t.clone()),
        TypedValue::Enum(symbol) => JsonValue::Text(symbol.clone()),
        TypedValue::List(values) => {
            let ghost model = values_view(values@);
            let mut out: Vec<JsonValue> = Vec::new();
            let mut i: usize = 0;
            proof {
                lemma_values_view(values@);
                assert(model.take(0) =~= Seq::empty());
            }
            while i < values.len()
                invariant
                    i <= values.len(),
                    *value is List,
                    value->List_0 == *values,
                    model == values_view(values@),
                    model.len() == values.len(),
                    forall|j: int| 0 <= j < values.len() ==> (#[trigger] model[j]) == values[j]@,
                    items_view(out@) == encode_items(model.take(i as int)),
                decreases values.len() - i,
            {
                proof {
                    vstd::std_specs::vec::axiom_vec_index_decreases(*values, i as int);
                    assert(decreases_to!(*value => value->List_0));
                }
                let item = encode_response(&values[i]);
                proof {
                    lemma_items_view_push(out@, item);
                    assert(model.take(i as int + 1).drop_last() =~= model.take(i as int));
                }
                out.push(item);
                i += 1;
            }
            assert(model.take(values.len() as int) =~= model);
            JsonValue::Array(out)
        },
        TypedValue::Message(fields) => {
            let ghost model = typed_fields_view(fields@);
            let mut out: Vec<Member> = Vec::new();
            let mut i: usize = 0;
            proof {
                lemma_typed_fields_view(fields@);
                assert(model.take(0) =~= Seq::empty());
            }
            while i < fields.len()
                invariant
                    i <= fields.len(),
                    *value is Message,
                    value->Message_0 == *fields,
                    model == typed_fields_view(fields@),
                    model.len() == fields.len(),
                    forall|j: int| 0 <= j < fields.len() ==> (#[trigger] model[j]) == fields[j]@,
                    members_view(out@) == encode_fields(model.take(i as int)),
                decreases fields.len() - i,
            {
                proof {
                    vstd::std_specs::vec::axiom_vec_index_decreases(*fields, i as int);
                    assert(decreases_to!(*value => value->Message_0));
                }
                let item = encode_response(&fields[i].value);
                let member = Member { name: fields[i].name.clone(), value: item };
                proof {
                    lemma_members_view_push(out@, member);
                    assert(model.take(i as int + 1).drop_last() =~= model.take(i as int));
                }
                out.push(member);
                i += 1;
            }
            assert(model.take(fields.len() as int) =~= model);
            JsonValue::Object(out)
        },
    }
}

/// A failure among the first `k` items is the failure of the whole run.
proof fn lemma_items_failure_stays(items: Seq<Json>, element: ShapeModel, k: int)
    requires
        0 <= k <= items.len(),
        decode_items(items.take(k), element) is Err,
    ensures
        decode_items(items, element) == decode_items(items.take(k), element),
    decreases items.len() - k,
{
    reveal_with_fuel(decode_items, 2);
    if k == items.len() {
        assert(items.take(k) =~= items);
    } else {
        assert(items.take(k + 1).drop_last() =~= items.take(k));
        lemma_items_failure_stays(items, element, k + 1);
    }
}

/// A failure among the first `k` fields is the failure of the whole message.
proof fn lemma_fields_failure_stays(
    members: Seq<(Seq<char>, Json)>,
    fields: Seq<(Seq<char>, ShapeModel)>,
    k: int,
)
    requires
        0 <= k <= fields.len(),
        decode_fields(members, fields.take(k)) is Err,
    ensures
        decode_fields(members, fields) == decode_fields(members, fields.take(k)),
    decreases fields.len() - k,
{
    reveal_with_fuel(decode_fields, 2);
    if k == fields.len() {
        assert(fields.take(k) =~= fields);
    } else {
        assert(fields.take(k + 1).drop_last() =~= fields.take(k));
        lemma_fields_failure_stays(members, fields, k + 1);
    }
}

/// The failure of `json` to be of `shape`, found where both stand.
fn refuse(json: &JsonValue, shape: &Shape) -> (r: DecodeError)
    ensures
        r@ == mismatch(shape@, json@),
{
    let path: Vec<PathStep> = Vec::new();
    assert(path_view(path@) =~= Seq::empty());
    DecodeError { path, expected: shape.kind(), actual: json.kind() }
}

/// The same failure, seen from one step further out.
fn under(error: DecodeError, step: PathStep) -> (r: DecodeError)
    ensures
        r@ == error@.under(step@),
{
    let mut path = error.path;
    let ghost before = path@;
    path.insert(0, step);
    assert(path_view(path@) =~= seq![step@] + path_view(before));
    DecodeError { path, expected: error.expected, actual: error.actual }
}

/// Decodes `json` after `shape`: the typed value that the document holds, or
/// the first place where the document is not of the shape.
pub fn decode_request(json: &JsonValue, shape: &Shape) -> (r: Result<TypedValue, DecodeError>)
    ensures
        decoded(r) == decode(json@, shape@),
    decreases shape,
{
    match shape {
        Shape::Bool => match json {
            JsonValue::Bool(b) => Ok(TypedValue::Bool(*b)),
            _ => Err(refuse(json, shape)),
        },
        Shape::Integer => match json {
            JsonValue::Number(number) => match number.as_integer() {
                Some(i) => Ok(TypedValue::Integer(i)),
                None => Err(refuse(json, shape)),
            },
            _ => Err(refuse(json, shape)),
        },
        Shape::Text => match json {
            JsonValue::Text(t) => Ok(TypedValue::Text(t.clone())),
            _ => Err(refuse(json, shape)),
        },
        Shape::Enum(symbols) => match json {
            JsonValue::Text(t) => {
                if has_symbol(symbols, t.as_str()) {
                    Ok(TypedValue::Enum(t.clone()))
                } else {
                    Err(refuse(json, shape))
                }
            },
            _ => Err(refuse(json, shape)),
        },
        Shape::Repeated(element) => match json {
            JsonValue::Array(items) => {
                let ghost model = items_view(items@);
                let mut out: Vec<TypedValue> = Vec::new();
                let mut i: usize = 0;
                proof {
                    lemma_items_view(items@);
                    assert(model.take(0) =~= Seq::empty());
                }
                while i < items.len()
                    invariant
                        i <= items.len(),
                        *shape is Repeated,
                        shape->Repeated_0 == *element,
                        shape@ == ShapeModel::Repeated(Box::new((**element)@)),
                        json@ == Json::Array(model),
                        model == items_view(items@),
                        model.len() == items.len(),
                        forall|j: int| 0 <= j < items.len() ==> (#[trigger] model[j]) == items[j]@,
                        decode_items(model.take(i as int), (**element)@) == Ok::<Seq<Typed>, Mismatch>(
                            values_view(out@),
                        ),
                    decreases items.len() - i,
                {
                    proof {
                        assert(decreases_to!(*shape => shape->Repeated_0));
                        assert(model.take(i as int + 1).drop_last() =~= model.take(i as int));
                        reveal_with_fuel(decode_items, 2);
                    }
                    match decode_request(&items[i], &**element) {
                        Ok(value) => {
                            proof {
                                lemma_values_view_push(out@, value);
                            }
                            out.push(value);
                        },
                        Err(e) => {
                            proof {
                                lemma_items_failure_stays(model, (**element)@, i as int + 1);
                            }
                            return Err(under(e, PathStep::Index(i)));
                        },
                    }
                    i += 1;
                }
                assert(model.take(items.len() as int) =~= model);
                Ok(TypedValue::List(out))
            },
            _ => Err(refuse(json, shape)),
        },
        Shape::Message(fields) => match json {
            JsonValue::Object(members) => {
                let ghost given = members_view(members@);
                let ghost model = fields_view(fields@);
                let mut out: Vec<TypedField> = Vec::new();
                let mut i: usize = 0;
                proof {
                    lemma_fields_view(fields@);
                    assert(model.take(0) =~= Seq::empty());
                }
                while i < fields.len()
                    invariant
                        i <= fields.len(),
                        *shape is Message,
                        shape->Message_0 == *fields,
                        shape@ == ShapeModel::Message(model),
                        json@ == Json::Object(given),
                        given == members_view(members@),
                        model == fields_view(fields@),
                        model.len() == fields.len(),
                        forall|j: int| 0 <= j < fields.len() ==> (#[trigger] model[j]) == fields[j]@,
                        decode_fields(given, model.take(i as int)) == Ok::<
                            Seq<(Seq<char>, Typed)>,
                            Mismatch,
                        >(typed_fields_view(out@)),
                    decreases fields.len() - i,
                {
                    proof {
                        vstd::std_specs::vec::axiom_vec_index_decreases(*fields, i as int);
                        assert(decreases_to!(*shape => shape->Message_0));
                        assert(model.take(i as int + 1).drop_last() =~= model.take(i as int));
                        reveal_with_fuel(decode_fields, 2);
                    }
                    let value = match find_member(members, fields[i].name.as_str()) {
                        None => zero_value(&fields[i].shape),
                        Some(member) => match decode_request(member, &fields[i].shape) {
                            Ok(value) => value,
                            Err(e) => {
                                proof {
                                    lemma_fields_failure_stays(given, model, i as int + 1);
                                }
                                return Err(under(e, PathStep::Field(fields[i].name.clone())));
                            },
                        },
                    };
                    let field = TypedField { name: fields[i].name.clone(), value };
                    proof {
                        lemma_typed_fields_view_push(out@, field);
                    }
                    out.push(field);
                    i += 1;
                }
                assert(model.take(fields.len() as int) =~= model);
                Ok(TypedValue::Message(out))
            },
            _ => Err(refuse(json, shape)),
        },
    }
}

} // verus!
