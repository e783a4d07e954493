//! What holds of the marshaller's two conversions taken together: decoding
//! yields values of the shape, encoding then decoding gives the value back,
//! and decoding then encoding may lose what the shape does not name.

use crate::dispatch::plan;
use crate::json::{first_member, Json};
use crate::marshal::{
    decode, decode_fields, decode_items, encode, encode_fields, encode_items, zero, zero_fields,
    Mismatch, Typed,
};
use crate::schema::{
    distinct, field_names, find, lemma_find_some, well_formed_shapes, DescriptorModel, ShapeModel,
};
use vstd::prelude::*;

verus! {

/// Whether `value` is a value of `shape`: of the shape's kind, an enum one of
/// the shape's symbols, every item of a list of the element shape, and a
/// message with exactly the shape's fields, in the shape's order, each of its
/// field's shape.
pub open spec fn conforms(value: Typed, shape: ShapeModel) -> bool
    decreases shape,
{
    match shape {
        ShapeModel::Bool => value is Bool,
        ShapeModel::Integer => value is Integer,
        ShapeModel::Text => value is Text,
        ShapeModel::Enum(symbols) => value matches Typed::Enum(symbol) && symbols.contains(symbol),
        ShapeModel::Repeated(element) => value matches Typed::List(values) && forall|i: int|
            0 <= i < values.len() ==> conforms(#[trigger] values[i], *element),
        ShapeModel::Message(fields) => value matches Typed::Message(values) && values.len()
            == fields.len() && forall|i: int|
            0 <= i < fields.len() ==> (#[trigger] values[i]).0 == fields[i].0 && conforms(
                values[i].1,
                fields[i].1,
            ),
    }
}

/// `encode_fields` works field by field and keeps every name.
pub proof fn lemma_encode_fields(fields: Seq<(Seq<char>, Typed)>)
    ensures
        encode_fields(fields).len() == fields.len(),
        forall|i: int|
            0 <= i < fields.len() ==> (#[trigger] encode_fields(fields)[i]) == (
                fields[i].0,
                encode(fields[i].1),
            ),
    decreases fields.len(),
{
    reveal_with_fuel(encode_fields, 2);
    if fields.len() > 0 {
        lemma_encode_fields(fields.drop_last());
    }
}

/// `zero_fields` works field by field and keeps every name.
pub proof fn lemma_zero_fields(fields: Seq<(Seq<char>, ShapeModel)>)
    ensures
        zero_fields(fields).len() == fields.len(),
        forall|i: int|
            0 <= i < fields.len() ==> (#[trigger] zero_fields(fields)[i]) == (
                fields[i].0,
                zero(fields[i].1),
            ),
    decreases fields.len(),
{
    reveal_with_fuel(zero_fields, 2);
    if fields.len() > 0 {
        lemma_zero_fields(fields.drop_last());
    }
}

/// Among members of distinct names, each is the one found under its name.
pub proof fn lemma_first_member_distinct(members: Seq<(Seq<char>, Json)>, index: int)
    requires
        distinct(field_names(members)),
        0 <= index < members.len(),
    ensures
        first_member(members, members[index].0) == Some(members[index].1),
    decreases members.len(),
{
    if index > 0 {
        let rest = members.skip(1);
        assert(field_names(members)[0] != field_names(members)[index]);
        assert forall|i: int, j: int| 0 <= i < j < rest.len() implies field_names(rest)[i]
            != field_names(rest)[j] by {
            assert(field_names(members)[i + 1] != field_names(members)[j + 1]);
        }
        lemma_first_member_distinct(rest, index - 1);
    }
}

/// The zero value of a well-formed shape is a value of that shape.
pub proof fn lemma_zero_conforms(shape: ShapeModel)
    requires
        shape.well_formed(),
    ensures
        conforms(zero(shape), shape),
    decreases shape,
{
    match shape {
        ShapeModel::Message(fields) => {
            lemma_zero_fields(fields);
            assert forall|i: int| 0 <= i < fields.len() implies (#[trigger] zero_fields(fields)[i]).0
                == fields[i].0 && conforms(zero_fields(fields)[i].1, fields[i].1) by {
                assert(fields[i].1.well_formed());
                lemma_zero_conforms(fields[i].1);
            }
        },
        ShapeModel::Enum(symbols) => {
            assert(symbols[0] == symbols[0]);
        },
        _ => {},
    }
}

/// What decodes after a well-formed shape is a value of that shape.
pub proof fn lemma_decode_conforms(json: Json, shape: ShapeModel)
    requires
        shape.well_formed(),
        decode(json, shape) is Ok,
    ensures
        conforms(decode(json, shape)->Ok_0, shape),
    decreases shape, 0nat,
{
    match shape {
        ShapeModel::Repeated(element) => {
            lemma_decoded_items_conform(json->Array_0, *element);
        },
        ShapeModel::Message(fields) => {
            assert(fields.take(fields.len() as int) =~= fields);
            lemma_decoded_fields_conform(json->Object_0, fields, fields.len() as int);
        },
        _ => {},
    }
}

/// Every item that decodes after a well-formed shape is a value of it.
proof fn lemma_decoded_items_conform(items: Seq<Json>, element: ShapeModel)
    requires
        element.well_formed(),
        decode_items(items, element) is Ok,
    ensures
        decode_items(items, element)->Ok_0.len() == items.len(),
        forall|i: int|
            0 <= i < items.len() ==> conforms(
                #[trigger] decode_items(items, element)->Ok_0[i],
                element,
            ),
    decreases element, items.len() + 1,
{
    reveal_with_fuel(decode_items, 2);
    if items.len() > 0 {
        lemma_decoded_items_conform(items.drop_last(), element);
        lemma_decode_conforms(items.last(), element);
    }
}

/// The first `k` fields that decode are values of their shapes, under their
/// fields' names.
proof fn lemma_decoded_fields_conform(
    members: Seq<(Seq<char>, Json)>,
    fields: Seq<(Seq<char>, ShapeModel)>,
    k: int,
)
    requires
        0 <= k <= fields.len(),
        forall|i: int| 0 <= i < fields.len() ==> (#[trigger] fields[i]).1.well_formed(),
        decode_fields(members, fields.take(k)) is Ok,
    ensures
        decode_fields(members, fields.take(k))->Ok_0.len() == k,
        forall|i: int|
            0 <= i < k ==> (#[trigger] decode_fields(members, fields.take(k))->Ok_0[i]).0
                == fields[i].0 && conforms(
                decode_fields(members, fields.take(k))->Ok_0[i].1,
                fields[i].1,
            ),
    decreases fields, k,
{
    reveal_with_fuel(decode_fields, 2);
    if k > 0 {
        assert(fields.take(k).drop_last() =~= fields.take(k - 1));
        assert(fields.take(k).last() == fields[k - 1]);
        lemma_decoded_fields_conform(members, fields, k - 1);
        assert(fields[k - 1].1.well_formed());
        match first_member(members, fields[k - 1].0) {
            None => {
                lemma_zero_conforms(fields[k - 1].1);
            },
            Some(json) => {
                lemma_decode_conforms(json, fields[k - 1].1);
            },
        }
    }
}

/// Encoding a value of a well-formed shape and decoding the document after
/// that shape gives the value back: encoding is the inverse of decoding.
pub proof fn lemma_encode_then_decode(value: Typed, shape: ShapeModel)
    requires
        shape.well_formed(),
        conforms(value, shape),
    ensures
        decode(encode(value), shape) == Ok::<Typed, Mismatch>(value),
    decreases shape, 0nat,
{
    match shape {
        ShapeModel::Repeated(element) => {
            let values = value->List_0;
            lemma_items_come_back(values, *element);
        },
        ShapeModel::Message(fields) => {
            let values = value->Message_0;
            let members = encode_fields(values);
            lemma_encode_fields(values);
            assert forall|i: int, j: int| 0 <= i < j < members.len() implies field_names(members)[i]
                != field_names(members)[j] by {
                assert(members[i].0 == fields[i].0);
                assert(members[j].0 == fields[j].0);
                assert(field_names(fields)[i] != field_names(fields)[j]);
            }
            lemma_fields_come_back(values, fields, fields.len() as int);
            assert(fields.take(fields.len() as int) =~= fields);
            assert(values.take(fields.len() as int) =~= values);
        },
        _ => {},
    }
}

/// Encoded items decode to the values they were encoded from.
proof fn lemma_items_come_back(values: Seq<Typed>, element: ShapeModel)
    requires
        element.well_formed(),
        forall|i: int| 0 <= i < values.len() ==> conforms(#[trigger] values[i], element),
    ensures
        decode_items(encode_items(values), element) == Ok::<Seq<Typed>, Mismatch>(values),
    decreases element, values.len() + 1,
{
    reveal_with_fuel(decode_items, 2);
    reveal_with_fuel(encode_items, 2);
    if values.len() == 0 {
        assert(values =~= Seq::empty());
    } else {
        let items = encode_items(values);
        assert(items.drop_last() =~= encode_items(values.drop_last()));
        assert(items.last() == encode(values.last()));
        assert forall|i: int| 0 <= i < values.drop_last().len() implies conforms(
            #[trigger] values.drop_last()[i],
            element,
        ) by {
            assert(values.drop_last()[i] == values[i]);
        }
        lemma_items_come_back(values.drop_last(), element);
        assert(conforms(values[values.len() - 1], element));
        lemma_encode_then_decode(values.last(), element);
        assert(values.drop_last().push(values.last()) =~= values);
    }
}

/// The first `k` fields of an encoded message decode to the values they were
/// encoded from.
proof fn lemma_fields_come_back(
    values: Seq<(Seq<char>, Typed)>,
    fields: Seq<(Seq<char>, ShapeModel)>,
    k: int,
)
    requires
        0 <= k <= fields.len(),
        values.len() == fields.len(),
        distinct(field_names(encode_fields(values))),
        forall|i: int| 0 <= i < fields.len() ==> (#[trigger] fields[i]).1.well_formed(),
        forall|i: int|
            0 <= i < fields.len() ==> (#[trigger] values[i]).0 == fields[i].0 && conforms(
                values[i].1,
                fields[i].1,
            ),
    ensures
        decode_fields(encode_fields(values), fields.take(k)) == Ok::<
            Seq<(Seq<char>, Typed)>,
            Mismatch,
        >(values.take(k)),
    decreases fields, k,
{
    reveal_with_fuel(decode_fields, 2);
    let members = encode_fields(values);
    if k == 0 {
        assert(values.take(0) =~= Seq::empty());
    } else {
        assert(fields.take(k).drop_last() =~= fields.take(k - 1));
        assert(fields.take(k).last() == fields[k - 1]);
        lemma_fields_come_back(values, fields, k - 1);
        lemma_encode_fields(values);
        lemma_first_member_distinct(members, k - 1);
        assert(members[k - 1] == (values[k - 1].0, encode(values[k - 1].1)));
        assert(values[k - 1].0 == fields[k - 1].0);
        assert(fields[k - 1].1.well_formed());
        lemma_encode_then_decode(values[k - 1].1, fields[k - 1].1);
        assert(values.take(k - 1).push((fields[k - 1].0, values[k - 1].1)) =~= values.take(k));
    }
}

/// Decoding is idempotent: a decoded value, encoded and decoded again after
/// the same well-formed shape, is the same value.
pub proof fn lemma_decode_is_idempotent(json: Json, shape: ShapeModel)
    requires
        shape.well_formed(),
        decode(json, shape) is Ok,
    ensures
        decode(encode(decode(json, shape)->Ok_0), shape) == decode(json, shape),
{
    lemma_decode_conforms(json, shape);
    lemma_encode_then_decode(decode(json, shape)->Ok_0, shape);
}

/// Decoding one document twice after one shape yields equal outcomes: what
/// comes out depends on the document and the shape alone.
pub proof fn lemma_decode_is_repeatable(
    json: Json,
    shape: ShapeModel,
    first: Result<Typed, Mismatch>,
    second: Result<Typed, Mismatch>,
)
    requires
        first == decode(json, shape),
        second == decode(json, shape),
    ensures
        first == second,
{
}

/// A decoded message has exactly the fields of its shape, by name and in
/// order, whatever the document held.
pub proof fn lemma_decoded_names(
    members: Seq<(Seq<char>, Json)>,
    fields: Seq<(Seq<char>, ShapeModel)>,
)
    requires
        decode_fields(members, fields) is Ok,
    ensures
        field_names(decode_fields(members, fields)->Ok_0) == field_names(fields),
    decreases fields.len(),
{
    reveal_with_fuel(decode_fields, 2);
    if fields.len() == 0 {
        assert(field_names(decode_fields(members, fields)->Ok_0) =~= field_names(fields));
    } else {
        lemma_decoded_names(members, fields.drop_last());
        let before = decode_fields(members, fields.drop_last())->Ok_0;
        let all = decode_fields(members, fields)->Ok_0;
        assert(field_names(before).len() == fields.len() - 1);
        assert forall|i: int| 0 <= i < fields.len() implies field_names(all)[i] == field_names(
            fields,
        )[i] by {
            if i < fields.len() - 1 {
                assert(all[i] == before[i]);
                assert(field_names(before)[i] == field_names(fields.drop_last())[i]);
            }
        }
        assert(field_names(all) =~= field_names(fields));
    }
}

/// Decoding and then encoding does not give every document back: an object
/// with a member that the message shape does not name decodes, where it
/// decodes at all, to a value whose document lacks that member.
pub proof fn lemma_unknown_member_is_dropped(json: Json, shape: ShapeModel, index: int)
    requires
        json is Object,
        shape is Message,
        0 <= index < json->Object_0.len(),
        !field_names(shape->Message_0).contains(json->Object_0[index].0),
        decode(json, shape) is Ok,
    ensures
        encode(decode(json, shape)->Ok_0) != json,
{
    let members = json->Object_0;
    let fields = shape->Message_0;
    let values = decode_fields(members, fields)->Ok_0;
    lemma_decoded_names(members, fields);
    lemma_encode_fields(values);
    if encode_fields(values) == members {
        assert(members[index].0 == values[index].0);
        assert(field_names(values)[index] == values[index].0);
        assert(field_names(fields)[index] == members[index].0);
    }
}

/// What the dispatcher hands to the backend is a call of the method that
/// was asked for, with a request that is a value of that method's request
/// shape.
pub proof fn lemma_planned_request_conforms(
    catalog: Seq<DescriptorModel>,
    service: Seq<char>,
    method: Seq<char>,
    body: Json,
)
    requires
        well_formed_shapes(catalog),
        plan(catalog, service, method, body) is Ok,
    ensures
        find(catalog, service, method) is Some,
        plan(catalog, service, method, body)->Ok_0.service_name == service,
        plan(catalog, service, method, body)->Ok_0.method_name == method,
        conforms(
            plan(catalog, service, method, body)->Ok_0.request,
            find(catalog, service, method)->Some_0.request_shape,
        ),
{
    lemma_find_some(catalog, service, method);
    let descriptor = find(catalog, service, method)->Some_0;
    let index = choose|i: int| 0 <= i < catalog.len() && catalog[i] == descriptor;
    assert(catalog[index].well_formed());
    lemma_decode_conforms(body, descriptor.request_shape);
}

} // verus!
