use jsonwebtoken::{encode, EncodingKey, Header};
use rest_gateway::auth::Claims;
use rest_gateway::dispatch::{
    conclude, describe, json_kind_name, plan_call, shape_kind_name, BackendReply, GatewayError,
    Invocation,
};
use rest_gateway::http::{
    complete, error_body, read_body, receive, respond, status_code, Admission, HttpResponse,
    STATUS_BAD_REQUEST, STATUS_INTERNAL, STATUS_OK, STATUS_UNAUTHORIZED,
};
use rest_gateway::json::{JsonKind, JsonValue, Member};
use rest_gateway::marshal::{DecodeError, PathStep, TypedField, TypedValue};
use rest_gateway::schema::{Field, MethodDescriptor, SchemaRegistry, Shape, ShapeKind};
use serde_json::{Number, Value};

const SECRET: &str = "default-secret-key";
const NOW: u64 = 1_700_000_000;

fn bearer(subject: &str, expires_at: u64) -> String {
    let mut claims = serde_json::Map::new();
    claims.insert("sub".to_string(), Value::String(subject.to_string()));
    claims.insert("exp".to_string(), Value::Number(Number::from(expires_at)));
    let token =
        encode(&Header::default(), &Value::Object(claims), &EncodingKey::from_secret(SECRET.as_bytes()))
            .unwrap();
    format!("Bearer {}", token)
}

fn field(name: &str, shape: Shape) -> Field {
    Field { name: name.to_string(), shape }
}

fn typed(name: &str, value: TypedValue) -> TypedField {
    TypedField { name: name.to_string(), value }
}

fn member(name: &str, value: JsonValue) -> Member {
    Member { name: name.to_string(), value }
}

fn text(s: &str) -> JsonValue {
    JsonValue::Text(s.to_string())
}

fn show_shape() -> Shape {
    Shape::Message(vec![field("name", Shape::Text), field("id", Shape::Text)])
}

fn registry() -> SchemaRegistry {
    SchemaRegistry::from_catalog(vec![
        MethodDescriptor {
            service_name: "show.ShowInterface".to_string(),
            method_name: "FindShow".to_string(),
            request_shape: Shape::Message(vec![field("name", Shape::Text)]),
            response_shape: Shape::Message(vec![field("show", show_shape())]),
        },
        MethodDescriptor {
            service_name: "job.JobInterface".to_string(),
            method_name: "Pause".to_string(),
            request_shape: Shape::Message(vec![field(
                "job",
                Shape::Message(vec![field("id", Shape::Text), field("name", Shape::Text)]),
            )]),
            response_shape: Shape::Message(vec![]),
        },
    ])
    .unwrap()
}

/// A backend for the scenarios: it counts its calls and answers the two
/// methods of the registry.
struct Backend {
    calls: usize,
}

impl Backend {
    fn run(&mut self, invocation: &Invocation) -> BackendReply {
        self.calls += 1;
        match invocation.method_name.as_str() {
            "FindShow" => {
                let name = match &invocation.request {
                    TypedValue::Message(fields) => match &fields[0].value {
                        TypedValue::Text(name) => name.clone(),
                        _ => String::new(),
                    },
                    _ => String::new(),
                };
                BackendReply::Response(TypedValue::Message(vec![typed(
                    "show",
                    TypedValue::Message(vec![
                        typed("name", TypedValue::Text(name)),
                        typed("id", TypedValue::Text("placeholder".to_string())),
                    ]),
                )]))
            }
            _ => BackendReply::Response(TypedValue::Message(vec![])),
        }
    }
}

fn serve(backend: &mut Backend, authorization: Option<&str>, service: &str, method: &str, body: &str) -> HttpResponse {
    match receive(&registry(), SECRET, authorization, service, method, body, NOW) {
        Admission::Reject(response) => response,
        Admission::Forward { invocation, .. } => complete(backend.run(&invocation)),
    }
}

#[test]
fn find_show_returns_the_show() {
    let mut backend = Backend { calls: 0 };
    let header = bearer("alice", NOW + 60);
    let response = serve(&mut backend, Some(&header), "show.ShowInterface", "FindShow", "{\"name\":\"pipeline-test\"}");
    assert_eq!(response.status, 200);
    assert_eq!(
        response.body,
        JsonValue::Object(vec![member(
            "show",
            JsonValue::Object(vec![member("name", text("pipeline-test")), member("id", text("placeholder"))]),
        )])
    );
    assert_eq!(response.body.member("show").unwrap().member("name"), Some(&text("pipeline-test")));
    assert_eq!(backend.calls, 1);
}

#[test]
fn find_show_forwards_the_claims_and_the_typed_request() {
    let header = bearer("alice", NOW);
    let admission = receive(&registry(), SECRET, Some(&header), "show.ShowInterface", "FindShow", "{\"name\":\"pipeline-test\",\"extra\":1}", NOW);
    assert_eq!(
        admission,
        Admission::Forward {
            claims: Claims { subject: "alice".to_string(), expires_at: NOW },
            invocation: Invocation {
                service_name: "show.ShowInterface".to_string(),
                method_name: "FindShow".to_string(),
                request: TypedValue::Message(vec![typed("name", TypedValue::Text("pipeline-test".to_string()))]),
            },
        }
    );
}

#[test]
fn an_expired_token_gets_401_and_no_backend_call() {
    let mut backend = Backend { calls: 0 };
    let header = bearer("alice", NOW - 1);
    let response = serve(&mut backend, Some(&header), "show.ShowInterface", "FindShow", "{\"name\":\"pipeline-test\"}");
    assert_eq!(response.status, 401);
    match response.body.member("error") {
        Some(JsonValue::Text(message)) => assert!(message.contains("expired")),
        other => panic!("no error message: {:?}", other),
    }
    assert_eq!(response.body, JsonValue::Object(vec![member("error", text("expired"))]));
    assert_eq!(backend.calls, 0);
}

#[test]
fn requests_without_valid_claims_get_401() {
    let mut backend = Backend { calls: 0 };
    let response = serve(&mut backend, None, "show.ShowInterface", "FindShow", "{}");
    assert_eq!(response, HttpResponse { status: 401, body: JsonValue::Object(vec![member("error", text("missing header"))]) });
    let response = serve(&mut backend, Some("Basic abc"), "show.ShowInterface", "FindShow", "{}");
    assert_eq!(response, HttpResponse { status: 401, body: JsonValue::Object(vec![member("error", text("bad scheme"))]) });
    let response = serve(&mut backend, Some("Bearer abc"), "unknown.Service", "Method", "not json");
    assert_eq!(response, HttpResponse { status: 401, body: JsonValue::Object(vec![member("error", text("invalid token"))]) });
    assert_eq!(backend.calls, 0);
}

#[test]
fn pause_with_an_empty_body_returns_an_empty_object() {
    let mut backend = Backend { calls: 0 };
    let header = bearer("alice", NOW + 60);
    let response = serve(&mut backend, Some(&header), "job.JobInterface", "Pause", "");
    assert_eq!(response.status, 200);
    assert_eq!(response.body, JsonValue::Object(vec![]));
    assert_eq!(backend.calls, 1);
}

#[test]
fn an_unknown_method_gets_400_and_no_backend_call() {
    let mut backend = Backend { calls: 0 };
    let header = bearer("alice", NOW + 60);
    let response = serve(&mut backend, Some(&header), "unknown.Service", "Method", "");
    assert_eq!(response.status, 400);
    assert_eq!(response.body, JsonValue::Object(vec![member("error", text("unknown service/method"))]));
    let response = serve(&mut backend, Some(&header), "show.ShowInterface", "Pause", "{}");
    assert_eq!(response.status, 400);
    let response = serve(&mut backend, Some(&header), "job.JobInterface", "FindShow", "{\"name\":\"x\"}");
    assert_eq!(response.status, 400);
    assert_eq!(backend.calls, 0);
}

#[test]
fn a_body_that_is_not_json_gets_400() {
    let mut backend = Backend { calls: 0 };
    let header = bearer("alice", NOW + 60);
    for body in ["{\"name\":", "name=pipeline", " ", "{} {}"] {
        let response = serve(&mut backend, Some(&header), "show.ShowInterface", "FindShow", body);
        assert_eq!(response, HttpResponse { status: 400, body: JsonValue::Object(vec![member("error", text("malformed JSON body"))]) });
    }
    assert_eq!(backend.calls, 0);
}

#[test]
fn a_body_of_the_wrong_shape_gets_400_with_the_place() {
    let mut backend = Backend { calls: 0 };
    let header = bearer("alice", NOW + 60);
    let response = serve(&mut backend, Some(&header), "show.ShowInterface", "FindShow", "{\"name\":{\"first\":\"a\"}}");
    assert_eq!(response.status, 400);
    assert_eq!(
        response.body,
        JsonValue::Object(vec![member("error", text("cannot decode $.name: expected string, found object"))])
    );
    let response = serve(&mut backend, Some(&header), "job.JobInterface", "Pause", "[1,2]");
    assert_eq!(
        response.body,
        JsonValue::Object(vec![member("error", text("cannot decode $: expected object, found array"))])
    );
    assert_eq!(backend.calls, 0);
}

#[test]
fn backend_failures_get_500() {
    let response = complete(BackendReply::ApplicationFailure("job is already paused".to_string()));
    assert_eq!(response, HttpResponse { status: 500, body: JsonValue::Object(vec![member("error", text("job is already paused"))]) });
    let response = complete(BackendReply::Unreachable);
    assert_eq!(response, HttpResponse { status: 500, body: JsonValue::Object(vec![member("error", text("backend unreachable"))]) });
    assert_eq!(conclude(BackendReply::Unreachable), Err(GatewayError::Internal("backend unreachable".to_string())));
    assert_eq!(
        conclude(BackendReply::Response(TypedValue::Integer(4))),
        Ok(JsonValue::integer(4))
    );
}

#[test]
fn plan_call_decides_without_a_backend() {
    let registry = registry();
    assert_eq!(
        plan_call(&registry, "unknown.Service", "Method", &JsonValue::Object(vec![])),
        Err(GatewayError::BadRequest("unknown service/method".to_string()))
    );
    assert_eq!(
        plan_call(&registry, "job.JobInterface", "Pause", &JsonValue::Object(vec![])),
        Ok(Invocation {
            service_name: "job.JobInterface".to_string(),
            method_name: "Pause".to_string(),
            request: TypedValue::Message(vec![typed(
                "job",
                TypedValue::Message(vec![
                    typed("id", TypedValue::Text(String::new())),
                    typed("name", TypedValue::Text(String::new())),
                ]),
            )]),
        })
    );
    assert_eq!(
        plan_call(&registry, "job.JobInterface", "Pause", &JsonValue::Object(vec![member("job", JsonValue::integer(3))])),
        Err(GatewayError::BadRequest("cannot decode $.job: expected object, found number".to_string()))
    );
}

#[test]
fn describe_writes_the_path() {
    let error = DecodeError {
        path: vec![
            PathStep::Field("layers".to_string()),
            PathStep::Index(12),
            PathStep::Field("cores".to_string()),
            PathStep::Index(0),
        ],
        expected: ShapeKind::Integer,
        actual: JsonKind::Null,
    };
    assert_eq!(describe(&error), "cannot decode $.layers[12].cores[0]: expected integer, found null");
    let error = DecodeError { path: vec![], expected: ShapeKind::Enum, actual: JsonKind::Text };
    assert_eq!(describe(&error), "cannot decode $: expected enum symbol, found string");
    assert_eq!(shape_kind_name(ShapeKind::Bool), "boolean");
    assert_eq!(shape_kind_name(ShapeKind::Repeated), "array");
    assert_eq!(shape_kind_name(ShapeKind::Message), "object");
    assert_eq!(shape_kind_name(ShapeKind::Text), "string");
    assert_eq!(json_kind_name(JsonKind::Bool), "boolean");
    assert_eq!(json_kind_name(JsonKind::Number), "number");
    assert_eq!(json_kind_name(JsonKind::Array), "array");
    assert_eq!(json_kind_name(JsonKind::Object), "object");
}

#[test]
fn errors_map_to_status_codes() {
    assert_eq!(status_code(&GatewayError::Unauthorized("expired".to_string())), 401);
    assert_eq!(status_code(&GatewayError::BadRequest(String::new())), 400);
    assert_eq!(status_code(&GatewayError::Internal(String::new())), 500);
    assert_eq!((STATUS_OK, STATUS_BAD_REQUEST, STATUS_UNAUTHORIZED, STATUS_INTERNAL), (200, 400, 401, 500));
    assert_eq!(error_body("boom".to_string()), JsonValue::Object(vec![member("error", text("boom"))]));
    assert_eq!(
        respond(Ok(JsonValue::Array(vec![]))),
        HttpResponse { status: 200, body: JsonValue::Array(vec![]) }
    );
    assert_eq!(
        respond(Err(GatewayError::BadRequest("no".to_string()))),
        HttpResponse { status: 400, body: JsonValue::Object(vec![member("error", text("no"))]) }
    );
}

#[test]
fn read_body_takes_an_empty_body_for_an_empty_object() {
    assert_eq!(read_body(""), Ok(JsonValue::Object(vec![])));
    assert_eq!(read_body("{}"), Ok(JsonValue::Object(vec![])));
    assert_eq!(read_body("null"), Ok(JsonValue::Null));
    assert_eq!(read_body("{\"a\":[1,-2]}"), Ok(JsonValue::Object(vec![member("a", JsonValue::Array(vec![JsonValue::integer(1), JsonValue::integer(-2)]))])));
    assert_eq!(read_body("{"), Err(GatewayError::BadRequest("malformed JSON body".to_string())));
}
