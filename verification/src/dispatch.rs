//! The dispatcher: from a service name, a method name and a JSON body to the
//! call that the backend is to run, and from what the backend replied to the
//! JSON response. The call itself is made by whoever holds the connection.

use crate::json::{Json, JsonKind, JsonValue};
use crate::marshal::{
    decode, decode_request, encode, encode_response, path_view, DecodeError, Mismatch, PathStep,
    Step, Typed, TypedValue,
};
use crate::schema::{
    find, unique_keys, well_formed_shapes, DescriptorModel, SchemaRegistry, ShapeKind,
};
use crate::text::{decimal, owned, push_decimal};
use vstd::prelude::*;
use vstd::string::*;

verus! {

/// The model of a gateway error.
pub enum Failure {
    Unauthorized(Seq<char>),
    BadRequest(Seq<char>),
    Internal(Seq<char>),
}

impl Failure {
    /// The message that the error carries.
    pub open spec fn message(self) -> Seq<char> {
        match self {
            Failure::Unauthorized(message) => message,
            Failure::BadRequest(message) => message,
            Failure::Internal(message) => message,
        }
    }
}

/// Why the gateway does not answer a request with the backend's response.
#[derive(Debug, PartialEq, Eq)]
pub enum GatewayError {
    /// The caller did not present a valid, unexpired token.
    Unauthorized(String),
    /// The request names no known method, or its body cannot be decoded.
    BadRequest(String),
    /// The backend is unreachable or reported a failure.
    Internal(String),
}

impl View for GatewayError {
    type V = Failure;

    open spec fn view(&self) -> Failure {
        match self {
            GatewayError::Unauthorized(message) => Failure::Unauthorized(message@),
            GatewayError::BadRequest(message) => Failure::BadRequest(message@),
            GatewayError::Internal(message) => Failure::Internal(message@),
        }
    }
}

/// The model of a call for the backend.
pub struct InvocationModel {
    pub service_name: Seq<char>,
    pub method_name: Seq<char>,
    pub request: Typed,
}

/// A call for the backend: the method to run and the typed request.
#[derive(Debug, PartialEq, Eq)]
pub struct Invocation {
    pub service_name: String,
    pub method_name: String,
    pub request: TypedValue,
}

impl View for Invocation {
    type V = InvocationModel;

    open spec fn view(&self) -> InvocationModel {
        InvocationModel {
            service_name: self.service_name@,
            method_name: self.method_name@,
            request: self.request@,
        }
    }
}

/// The model of what became of a call.
pub enum Reply {
    Response(Typed),
    ApplicationFailure(Seq<char>),
    Unreachable,
}

/// What became of a call for the backend.
#[derive(Debug, PartialEq, Eq)]
pub enum BackendReply {
    /// The backend's typed response.
    Response(TypedValue),
    /// The backend ran the call and reported this failure.
    ApplicationFailure(String),
    /// No connection could be had, after every attempt to reconnect.
    Unreachable,
}

impl View for BackendReply {
    type V = Reply;

    open spec fn view(&self) -> Reply {
        match self {
            BackendReply::Response(value) => Reply::Response(value@),
            BackendReply::ApplicationFailure(message) => Reply::ApplicationFailure(message@),
            BackendReply::Unreachable => Reply::Unreachable,
        }
    }
}

/// The word for a kind of shape.
pub open spec fn shape_kind_word(kind: ShapeKind) -> Seq<char> {
    match kind {
        ShapeKind::Bool => "boolean"@,
        ShapeKind::Integer => "integer"@,
        ShapeKind::Text => "string"@,
        ShapeKind::Enum => "enum symbol"@,
        ShapeKind::Repeated => "array"@,
        ShapeKind::Message => "object"@,
    }
}

/// The word for a kind of JSON value.
pub open spec fn json_kind_word(kind: JsonKind) -> Seq<char> {
    match kind {
        JsonKind::Null => "null"@,
        JsonKind::Bool => "boolean"@,
        JsonKind::Number => "number"@,
        JsonKind::Text => "string"@,
        JsonKind::Array => "array"@,
        JsonKind::Object => "object"@,
    }
}

/// One step of a path as text: `.name` for a field, `[index]` for an item.
pub open spec fn step_text(step: Step) -> Seq<char> {
    match step {
        Step::Field(name) => "."@ + name,
        Step::Index(index) => "["@ + decimal(index) + "]"@,
    }
}

/// The steps of a path as text, one after the other.
pub open spec fn steps_text(path: Seq<Step>) -> Seq<char>
    decreases path.len(),
{
    if path.len() == 0 {
        Seq::empty()
    } else {
        steps_text(path.drop_last()) + step_text(path.last())
    }
}

/// The sentence that tells a caller of a decoding failure: where, what was
/// expected, and what was found. The root of the document is written `$`.
pub open spec fn description(mismatch: Mismatch) -> Seq<char> {
    "cannot decode "@ + "$"@ + steps_text(mismatch.path) + ": expected "@ + shape_kind_word(
        mismatch.expected,
    ) + ", found "@ + json_kind_word(mismatch.actual)
}

/// The message for a request that names no method of the registry.
pub open spec fn unknown_method() -> Seq<char> {
    "unknown service/method"@
}

/// The message for a backend that cannot be reached.
pub open spec fn backend_unreachable() -> Seq<char> {
    "backend unreachable"@
}

/// What the dispatcher plans for a request: a bad request where `catalog`
/// has no such method or the body is not of the method's request shape, and
/// otherwise the call, with the request decoded after that shape.
pub open spec fn plan(
    catalog: Seq<DescriptorModel>,
    service: Seq<char>,
    method: Seq<char>,
    body: Json,
) -> Result<InvocationModel, Failure> {
    match find(catalog, service, method) {
        None => Err(Failure::BadRequest(unknown_method())),
        Some(descriptor) => match decode(body, descriptor.request_shape) {
            Err(mismatch) => Err(Failure::BadRequest(description(mismatch))),
            Ok(request) => Ok(
                InvocationModel {
                    service_name: descriptor.service_name,
                    method_name: descriptor.method_name,
                    request,
                },
            ),
        },
    }
}

/// What the dispatcher makes of the backend's reply: the response encoded,
/// the backend's own failure with its message, or the unreachable backend.
pub open spec fn conclusion(reply: Reply) -> Result<Json, Failure> {
    match reply {
        Reply::Response(value) => Ok(encode(value)),
        Reply::ApplicationFailure(message) => Err(Failure::Internal(message)),
        Reply::Unreachable => Err(Failure::Internal(backend_unreachable())),
    }
}

/// The model of what `plan_call` returns.
pub open spec fn planned(r: Result<Invocation, GatewayError>) -> Result<InvocationModel, Failure> {
    match r {
        Ok(invocation) => Ok(invocation@),
        Err(error) => Err(error@),
    }
}

/// The model of what `conclude` returns.
pub open spec fn concluded(r: Result<JsonValue, GatewayError>) -> Result<Json, Failure> {
    match r {
        Ok(document) => Ok(document@),
        Err(error) => Err(error@),
    }
}

/// The word for a kind of shape.
pub fn shape_kind_name(kind: ShapeKind) -> (r: &'static str)
    ensures
        r@ == shape_kind_word(kind),
{
    match kind {
        ShapeKind::Bool => "boolean",
        ShapeKind::Integer => "integer",
        ShapeKind::Text => "string",
        ShapeKind::Enum => "enum symbol",
        ShapeKind::Repeated => "array",
        ShapeKind::Message => "object",
    }
}

/// The word for a kind of JSON value.
pub fn json_kind_name(kind: JsonKind) -> (r: &'static str)
    ensures
        r@ == json_kind_word(kind),
{
    match kind {
        JsonKind::Null => "null",
        JsonKind::Bool => "boolean",
        JsonKind::Number => "number",
        JsonKind::Text => "string",
        JsonKind::Array => "array",
        JsonKind::Object => "object",
    }
}

/// Appends the steps of `path` to `out`.
fn push_steps(out: &mut String, path: &Vec<PathStep>)
    ensures
        final(out)@ == old(out)@ + steps_text(path_view(path@)),
{
    let ghost steps = path_view(path@);
    let mut i: usize = 0;
    assert(old(out)@ + steps_text(steps.take(0)) =~= old(out)@);
    while i < path.len()
        invariant
            i <= path.len(),
            steps == path_view(path@),
            out@ == old(out)@ + steps_text(steps.take(i as int)),
        decreases path.len() - i,
    {
        let ghost before = out@;
        proof {
            assert(steps.take(i as int + 1).drop_last() =~= steps.take(i as int));
            assert(steps.take(i as int + 1).last() == path[i as int]@);
        }
        match &path[i] {
            PathStep::Field(name) => {
                out.append(".");
                out.append(name.as_str());
                assert(out@ =~= before + step_text(path[i as int]@));
            },
            PathStep::Index(index) => {
                out.append("[");
                push_decimal(out, *index);
                out.append("]");
                assert(out@ =~= before + step_text(path[i as int]@));
            },
        }
        assert(out@ =~= old(out)@ + steps_text(steps.take(i as int + 1)));
        i += 1;
    }
    assert(steps.take(path.len() as int) =~= steps);
}

/// The sentence that tells a caller of `error`.
pub fn describe(error: &DecodeError) -> (r: String)
    ensures
        r@ == description(error@),
{
    let mut out = owned("cannot decode ");
    out.append("$");
    push_steps(&mut out, &error.path);
    out.append(": expected ");
    out.append(shape_kind_name(error.expected));
    out.append(", found ");
    out.append(json_kind_name(error.actual));
    out
}

/// Plans the call for a request. Nothing is sent anywhere: the outcome is
/// the call to make, or the error to answer with.
///
/// A request for a method that the registry does not hold is a bad request,
/// and no call comes of it.
pub fn plan_call(registry: &SchemaRegistry, service: &str, method: &str, body: &JsonValue) -> (r:
    Result<Invocation, GatewayError>)
    ensures
        planned(r) == plan(registry@, service@, method@, body@),
        find(registry@, service@, method@) is None ==> planned(r) == Err::<
            InvocationModel,
            Failure,
        >(Failure::BadRequest(unknown_method())),
        unique_keys(registry@),
        well_formed_shapes(registry@),
{
    match registry.lookup(service, method) {
        None => Err(GatewayError::BadRequest(owned("unknown service/method"))),
        Some(descriptor) => match decode_request(body, &descriptor.request_shape) {
            Err(error) => Err(GatewayError::BadRequest(describe(&error))),
            Ok(request) => Ok(
                Invocation {
                    service_name: descriptor.service_name.clone(),
                    method_name: descriptor.method_name.clone(),
                    request,
                },
            ),
        },
    }
}

/// Turns what became of the call into the outcome of the request.
pub fn conclude(reply: BackendReply) -> (r: Result<JsonValue, GatewayError>)
    ensures
        concluded(r) == conclusion(reply@),
{
    match reply {
        BackendReply::Response(value) => Ok(encode_response(&value)),
        BackendReply::ApplicationFailure(message) => Err(GatewayError::Internal(message)),
        BackendReply::Unreachable => Err(GatewayError::Internal(owned("backend unreachable"))),
    }
}

} // verus!
