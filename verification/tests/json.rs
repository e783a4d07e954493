use rest_gateway::json::{parse, JsonKind, JsonNumber, JsonValue, Member};

#[test]
fn parse_reads_an_object() {
    let document = parse("{\"name\": \"pipeline-test\", \"count\": 3}").unwrap();
    assert_eq!(document.kind(), JsonKind::Object);
    assert_eq!(document.member("name"), Some(&JsonValue::Text("pipeline-test".to_string())));
    assert_eq!(document.member("count"), Some(&JsonValue::integer(3)));
    assert_eq!(document.member("missing"), None);
}

#[test]
fn parse_rejects_malformed_text() {
    assert_eq!(parse("{\"name\": "), None);
    assert_eq!(parse(""), None);
}

#[test]
fn parse_keeps_fractions_as_text() {
    assert_eq!(parse("1.5"), Some(JsonValue::Number(JsonNumber::Decimal("1.5".to_string()))));
    assert_eq!(parse("[1, true, null]"), Some(JsonValue::Array(vec![
        JsonValue::integer(1),
        JsonValue::Bool(true),
        JsonValue::Null,
    ])));
    let nested = parse("{\"a\": {\"b\": []}}").unwrap();
    assert_eq!(nested, JsonValue::Object(vec![Member {
        name: "a".to_string(),
        value: JsonValue::Object(vec![Member { name: "b".to_string(), value: JsonValue::Array(vec![]) }]),
    }]));
}

#[test]
fn parse_tells_the_kinds_of_number_apart() {
    assert_eq!(parse("0"), Some(JsonValue::Number(JsonNumber::Natural(0))));
    assert_eq!(parse("18446744073709551615"), Some(JsonValue::Number(JsonNumber::Natural(u64::MAX))));
    assert_eq!(parse("-1"), Some(JsonValue::Number(JsonNumber::Negative(-1))));
    assert_eq!(parse("-9223372036854775808"), Some(JsonValue::Number(JsonNumber::Negative(i64::MIN))));
    assert_eq!(parse("1.0"), Some(JsonValue::Number(JsonNumber::Decimal("1.0".to_string()))));
    assert_eq!(parse("-0.25"), Some(JsonValue::Number(JsonNumber::Decimal("-0.25".to_string()))));
    assert_eq!(JsonValue::integer(7), JsonValue::Number(JsonNumber::Natural(7)));
    assert_eq!(JsonValue::integer(-7), JsonValue::Number(JsonNumber::Negative(-7)));
    assert_eq!(JsonValue::integer(0), JsonValue::Number(JsonNumber::Natural(0)));
    assert_eq!(JsonNumber::of_integer(i64::MIN), JsonNumber::Negative(i64::MIN));
}

#[test]
fn numbers_are_integers_where_they_fit() {
    assert_eq!(JsonNumber::Natural(5).as_integer(), Some(5));
    assert_eq!(JsonNumber::Natural(i64::MAX as u64).as_integer(), Some(i64::MAX));
    assert_eq!(JsonNumber::Natural(i64::MAX as u64 + 1).as_integer(), None);
    assert_eq!(JsonNumber::Negative(-5).as_integer(), Some(-5));
    assert_eq!(JsonNumber::Decimal("5.0".to_string()).as_integer(), None);
}

#[test]
fn kinds_and_members() {
    assert_eq!(JsonValue::Null.kind(), JsonKind::Null);
    assert_eq!(JsonValue::Bool(false).kind(), JsonKind::Bool);
    assert_eq!(JsonValue::integer(1).kind(), JsonKind::Number);
    assert_eq!(JsonValue::Number(JsonNumber::Decimal("1e9".to_string())).kind(), JsonKind::Number);
    assert_eq!(JsonValue::Text(String::new()).kind(), JsonKind::Text);
    assert_eq!(JsonValue::Array(vec![]).kind(), JsonKind::Array);
    assert_eq!(JsonValue::empty_object().kind(), JsonKind::Object);
    assert_eq!(JsonValue::empty_object(), JsonValue::Object(vec![]));
    assert_eq!(JsonValue::Array(vec![JsonValue::Null]).member("0"), None);
    let twice = JsonValue::Object(vec![
        Member { name: "a".to_string(), value: JsonValue::integer(1) },
        Member { name: "a".to_string(), value: JsonValue::integer(2) },
    ]);
    assert_eq!(twice.member("a"), Some(&JsonValue::integer(1)));
}
