//! The front door's rules: how a body is read, how an outcome becomes a
//! status code and a JSON body, and the two steps that carry a request from
//! its arrival to the backend call and from the backend's reply to the
//! response.

use crate::auth::{authenticate, header_view, verdict, Claims, ClaimsModel};
use crate::dispatch::{
    conclude, concluded, conclusion, plan, plan_call, BackendReply, Failure, GatewayError,
    Invocation, InvocationModel,
};
use crate::json::{
    json_of_text, lemma_members_view_push, members_view, parse, Json, JsonValue, Member,
};
use crate::schema::{find, DescriptorModel, SchemaRegistry};
use crate::text::owned;
use vstd::prelude::*;

verus! {

/// The status of a request that was answered.
pub const STATUS_OK: u16 = 200;

/// The status of a request that names no known method or has a body that
/// cannot be read or decoded.
pub const STATUS_BAD_REQUEST: u16 = 400;

/// The status of a request without a valid, unexpired token.
pub const STATUS_UNAUTHORIZED: u16 = 401;

/// The status of a request that the backend failed.
pub const STATUS_INTERNAL: u16 = 500;

/// The model of a response.
pub struct ResponseModel {
    pub status: u16,
    pub body: Json,
}

/// The response to a request: a status code and a JSON body.
#[derive(Debug, PartialEq, Eq)]
pub struct HttpResponse {
    pub status: u16,
    pub body: JsonValue,
}

impl View for HttpResponse {
    type V = ResponseModel;

    open spec fn view(&self) -> ResponseModel {
        ResponseModel { status: self.status, body: self.body@ }
    }
}

/// The status code of an error.
pub open spec fn status_of(failure: Failure) -> u16 {
    match failure {
        Failure::Unauthorized(_) => STATUS_UNAUTHORIZED,
        Failure::BadRequest(_) => STATUS_BAD_REQUEST,
        Failure::Internal(_) => STATUS_INTERNAL,
    }
}

/// The body of an error response: an object whose one member, `error`, is
/// the message.
pub open spec fn error_document(message: Seq<char>) -> Json {
    Json::Object(seq![("error"@, Json::Text(message))])
}

/// The response to an outcome: the document with status 200, or the error's
/// status with the error's message as the body.
pub open spec fn response_for(outcome: Result<Json, Failure>) -> ResponseModel {
    match outcome {
        Ok(document) => ResponseModel { status: STATUS_OK, body: document },
        Err(failure) => ResponseModel {
            status: status_of(failure),
            body: error_document(failure.message()),
        },
    }
}

/// The message for a body that is not JSON.
pub open spec fn malformed_body() -> Seq<char> {
    "malformed JSON body"@
}

/// The document that a request body holds. An empty body stands for the
/// object without members; any other body is read as JSON, and is a bad
/// request where it is not well formed.
pub open spec fn body_document(text: Seq<char>) -> Result<Json, Failure> {
    if text.len() == 0 {
        Ok(Json::Object(Seq::empty()))
    } else {
        match json_of_text(text) {
            Some(document) => Ok(document),
            None => Err(Failure::BadRequest(malformed_body())),
        }
    }
}

/// The model of an admission.
pub enum AdmissionModel {
    Forward { claims: ClaimsModel, invocation: InvocationModel },
    Reject(ResponseModel),
}

impl AdmissionModel {
    /// Whether the request is answered at once, with this status.
    pub open spec fn rejects_with(self, status: u16) -> bool {
        match self {
            AdmissionModel::Reject(response) => response.status == status,
            AdmissionModel::Forward { .. } => false,
        }
    }
}

/// What the gateway does with a request that has arrived.
#[derive(Debug, PartialEq, Eq)]
pub enum Admission {
    /// The backend is to run this call for the caller of these claims.
    Forward { claims: Claims, invocation: Invocation },
    /// The request is answered at once; the backend hears nothing of it.
    Reject(HttpResponse),
}

impl View for Admission {
    type V = AdmissionModel;

    open spec fn view(&self) -> AdmissionModel {
        match self {
            Admission::Forward { claims, invocation } => AdmissionModel::Forward {
                claims: claims@,
                invocation: invocation@,
            },
            Admission::Reject(response) => AdmissionModel::Reject(response@),
        }
    }
}

/// What becomes of a request on arrival. The guard comes first: without
/// valid claims nothing else is looked at. Then the body is read, then the
/// call is planned; the first of these to fail answers the request.
pub open spec fn admission(
    catalog: Seq<DescriptorModel>,
    secret: Seq<char>,
    authorization: Option<Seq<char>>,
    service: Seq<char>,
    method: Seq<char>,
    body: Seq<char>,
    now: u64,
) -> AdmissionModel {
    match verdict(authorization, secret, now) {
        Err(rejection) => AdmissionModel::Reject(
            response_for(Err(Failure::Unauthorized(rejection.reason()))),
        ),
        Ok(claims) => match body_document(body) {
            Err(failure) => AdmissionModel::Reject(response_for(Err(failure))),
            Ok(document) => match plan(catalog, service, method, document) {
                Err(failure) => AdmissionModel::Reject(response_for(Err(failure))),
                Ok(invocation) => AdmissionModel::Forward { claims, invocation },
            },
        },
    }
}

/// The status code of `error`.
pub fn status_code(error: &GatewayError) -> (r: u16)
    ensures
        r == status_of(error@),
{
    match error {
        GatewayError::Unauthorized(_) => STATUS_UNAUTHORIZED,
        GatewayError::BadRequest(_) => STATUS_BAD_REQUEST,
        GatewayError::Internal(_) => STATUS_INTERNAL,
    }
}

/// The body of an error response with `message`.
pub fn error_body(message: String) -> (r: JsonValue)
    ensures
        r@ == error_document(message@),
{
    let mut members: Vec<Member> = Vec::new();
    let member = Member { name: owned("error"), value: JsonValue::Text(message) };
    proof {
        lemma_members_view_push(members@, member);
        assert(members_view(members@).push(member@) =~= seq![("error"@, Json::Text(message@))]);
    }
    members.push(member);
    JsonValue::Object(members)
}

/// The response to the outcome of a request.
pub fn respond(outcome: Result<JsonValue, GatewayError>) -> (r: HttpResponse)
    ensures
        r@ == response_for(concluded(outcome)),
{
    match outcome {
        Ok(body) => HttpResponse { status: STATUS_OK, body },
        Err(error) => {
            let status = status_code(&error);
            let message = match error {
                GatewayError::Unauthorized(message) => message,
                GatewayError::BadRequest(message) => message,
                GatewayError::Internal(message) => message,
            };
            HttpResponse { status, body: error_body(message) }
        },
    }
}

/// Reads the body of a request.
pub fn read_body(text: &str) -> (r: Result<JsonValue, GatewayError>)
    ensures
        concluded(r) == body_document(text@),
{
    if text.unicode_len() == 0 {
        Ok(JsonValue::empty_object())
    } else {
        match parse(text) {
            Some(document) => Ok(document),
            None => Err(GatewayError::BadRequest(owned("malformed JSON body"))),
        }
    }
}

/// Takes a request in: `authorization` is the value of its `Authorization`
/// header, `service` and `method` the two segments of its path, `body` its
/// body as text, `now` the current time in seconds since the Unix epoch.
///
/// The outcome is the call for the backend, or the response that answers the
/// request without the backend. A request without valid claims is answered
/// with 401, one for a method that the registry does not hold with 400.
pub fn receive(
    registry: &SchemaRegistry,
    secret: &str,
    authorization: Option<&str>,
    service: &str,
    method: &str,
    body: &str,
    now: u64,
) -> (r: Admission)
    ensures
        r@ == admission(registry@, secret@, header_view(authorization), service@, method@, body@, now),
        verdict(header_view(authorization), secret@, now) is Err ==> r@.rejects_with(
            STATUS_UNAUTHORIZED,
        ),
        verdict(header_view(authorization), secret@, now) is Ok && find(
            registry@,
            service@,
            method@,
        ) is None ==> r@.rejects_with(STATUS_BAD_REQUEST),
{
    let claims = match authenticate(authorization, secret, now) {
        Ok(claims) => claims,
        Err(rejection) => {
            return Admission::Reject(
                respond(Err(GatewayError::Unauthorized(owned(rejection.message())))),
            );
        },
    };
    let document = match read_body(body) {
        Ok(document) => document,
        Err(error) => {
            return Admission::Reject(respond(Err(error)));
        },
    };
    match plan_call(registry, service, method, &document) {
        Ok(invocation) => Admission::Forward { claims, invocation },
        Err(error) => Admission::Reject(respond(Err(error))),
    }
}

/// Answers a request whose call has been made: the backend's response with
/// status 200, or the backend's failure with status 500.
pub fn complete(reply: BackendReply) -> (r: HttpResponse)
    ensures
        r@ == response_for(conclusion(reply@)),
{
    respond(conclude(reply))
}

} // verus!
