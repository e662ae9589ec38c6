use poem_openapi::error::ParseRequestError;
use poem_openapi::json::JsonValue;
use poem_openapi::middleware::{make, Middleware};
use poem_openapi::object::{FieldDef, ObjectDef};
use poem_openapi::param::{ParamIn, ParamOptions, Query};
use poem_openapi::registry::{Registry, SchemaKind};
use poem_openapi::request::{Body, Payload, PayloadValue, RequestDef};
use poem_openapi::types::{FieldType, IntFormat, Scalar, ScalarType, Value};
use poem_openapi::validation::Validator;

fn int32() -> FieldType {
    FieldType::Scalar(ScalarType::Integer(IntFormat::Int32))
}

fn obj(name: &str, fields: Vec<FieldDef>) -> ObjectDef {
    ObjectDef { name: name.to_string(), fields }
}

fn fld(name: &str, ty: FieldType, validators: Vec<Validator>, list: bool) -> FieldDef {
    FieldDef { name: name.to_string(), ty, validators, list }
}

fn members(items: Vec<(&str, JsonValue)>) -> JsonValue {
    JsonValue::Object(items.into_iter().map(|(k, v)| (k.to_string(), v)).collect())
}

fn pairs(items: &[(&str, &str)]) -> Vec<(String, String)> {
    items.iter().map(|(k, v)| (k.to_string(), v.to_string())).collect()
}

fn int_value(v: &Value) -> i128 {
    match v {
        Value::Scalar(Scalar::Integer(n)) => *n,
        other => panic!("not an integer: {:?}", other),
    }
}

fn message_of(r: Result<Vec<Value>, poem_openapi::types::ParseError>) -> String {
    r.unwrap_err().into_message()
}

fn same_value(a: &Value, b: &Value) -> bool {
    match (a, b) {
        (Value::Scalar(x), Value::Scalar(y)) => x == y,
        (Value::List(x), Value::List(y)) => x == y,
        (Value::Absent, Value::Absent) => true,
        (Value::Present(x), Value::Present(y)) => same_value(x, y),
        _ => false,
    }
}

#[test]
fn json_round_trip() {
    let cases: Vec<(FieldType, Value)> = vec![
        (int32(), Value::Scalar(Scalar::Integer(-42))),
        (
            FieldType::Scalar(ScalarType::Integer(IntFormat::Uint64)),
            Value::Scalar(Scalar::Integer(u64::MAX as i128)),
        ),
        (FieldType::Scalar(ScalarType::Str), Value::Scalar(Scalar::Str("a b".to_string()))),
        (FieldType::Scalar(ScalarType::Bool), Value::Scalar(Scalar::Bool(false))),
        (
            FieldType::List(ScalarType::Integer(IntFormat::Int8)),
            Value::List(vec![Scalar::Integer(-128), Scalar::Integer(127)]),
        ),
        (FieldType::Optional(Box::new(int32())), Value::Absent),
        (
            FieldType::Optional(Box::new(FieldType::Optional(Box::new(int32())))),
            Value::Present(Box::new(Value::Present(Box::new(Value::Scalar(Scalar::Integer(7)))))),
        ),
    ];
    for (ty, v) in cases {
        let j = v.to_json();
        let back = ty.parse_from_json(Some(&j)).unwrap();
        assert!(same_value(&back, &v), "{:?} came back as {:?}", v, back);
    }
}

#[test]
fn parameter_round_trip() {
    let cases: Vec<(ScalarType, Scalar)> = vec![
        (ScalarType::Integer(IntFormat::Int64), Scalar::Integer(i64::MIN as i128)),
        (ScalarType::Integer(IntFormat::Uint16), Scalar::Integer(0)),
        (ScalarType::Integer(IntFormat::Int32), Scalar::Integer(-1000)),
        (ScalarType::Str, Scalar::Str("x=1&y".to_string())),
        (ScalarType::Bool, Scalar::Bool(true)),
    ];
    for (st, s) in cases {
        let text = s.to_parameter();
        assert_eq!(st.parse_from_parameter(&text).unwrap(), s);
    }
    assert_eq!(Scalar::Integer(-1000).to_parameter(), "-1000");
}

#[test]
fn validator_order_decides_message() {
    let chain = vec![Validator::MultipleOf(10), Validator::Maximum(500, false)];
    let a = obj("A", vec![fld("n", int32(), chain, false)]);
    assert_eq!(
        message_of(a.parse_from_json(&members(vec![("n", JsonValue::Number(530))]))),
        "failed to parse \"A\": field `n` verification failed. maximum(500, exclusive: false)"
    );
    assert_eq!(
        message_of(a.parse_from_json(&members(vec![("n", JsonValue::Number(535))]))),
        "failed to parse \"A\": field `n` verification failed. multipleOf(10)"
    );
    let swapped = vec![Validator::Maximum(500, false), Validator::MultipleOf(10)];
    let b = obj("A", vec![fld("n", int32(), swapped, false)]);
    assert_eq!(
        message_of(b.parse_from_json(&members(vec![("n", JsonValue::Number(535))]))),
        "failed to parse \"A\": field `n` verification failed. maximum(500, exclusive: false)"
    );
}

#[test]
fn width_clamping() {
    let u8ty = ScalarType::Integer(IntFormat::Uint8);
    assert_eq!(
        u8ty.parse_from_json(&JsonValue::Number(256)).unwrap_err().into_message(),
        "failed to parse \"integer(uint8)\": Only integers from 0 to 255 are accepted."
    );
    assert_eq!(u8ty.parse_from_json(&JsonValue::Number(255)).unwrap(), Scalar::Integer(255));
    let i8ty = ScalarType::Integer(IntFormat::Int8);
    assert_eq!(
        i8ty.parse_from_json(&JsonValue::Number(-129)).unwrap_err().into_message(),
        "failed to parse \"integer(int8)\": Only integers from -128 to 127 are accepted."
    );
}

#[test]
fn null_same_as_missing_for_nested_optional() {
    let ty = FieldType::Optional(Box::new(FieldType::Optional(Box::new(int32()))));
    assert!(matches!(ty.parse_from_json(Some(&JsonValue::Null)), Ok(Value::Absent)));
    assert!(matches!(ty.parse_from_json(None), Ok(Value::Absent)));
    let schema = ty.schema();
    let plain = int32().schema();
    assert_eq!(schema.ty, plain.ty);
    assert_eq!(schema.format, Some(IntFormat::Int32));
}

#[test]
fn list_validator_nesting() {
    let list = obj(
        "A",
        vec![fld(
            "n",
            FieldType::List(ScalarType::Integer(IntFormat::Int32)),
            vec![Validator::Maximum(10, false)],
            true,
        )],
    );
    let scalar = obj("A", vec![fld("n", int32(), vec![Validator::Maximum(10, false)], false)]);
    let ns = vec![1, 2, 3, 25].into_iter().map(JsonValue::Number).collect();
    let from_list = message_of(list.parse_from_json(&members(vec![("n", JsonValue::Array(ns))])));
    let from_scalar = message_of(scalar.parse_from_json(&members(vec![("n", JsonValue::Number(25))])));
    assert_eq!(from_list, from_scalar);

    let schema = list.fields[0].schema();
    assert_eq!(schema.ty, SchemaKind::Array);
    assert_eq!(schema.maximum, None);
    assert_eq!(schema.items.as_ref().unwrap().unwrap_inline().maximum, Some(10));
}

fn two_way_request() -> RequestDef {
    let a = obj("A", vec![fld("n", int32(), vec![], false)]);
    RequestDef { alternatives: vec![Payload::Json(a), Payload::PlainText] }
}

#[test]
fn content_type_dispatch() {
    let req = two_way_request();
    let none = req.from_request(None, Body::Text("x".to_string()));
    assert!(matches!(none, Err(ParseRequestError::ExpectContentType)));
    assert_eq!(
        none.err().unwrap().message(),
        "The client request does not include the `Content-Type` header."
    );

    match req.from_request(Some("application/xml"), Body::Text("x".to_string())) {
        Err(ParseRequestError::ContentTypeNotSupported { content_type }) => {
            assert_eq!(content_type, "application/xml")
        },
        _ => panic!("application/xml was accepted"),
    }

    let body = Body::Json(members(vec![("n", JsonValue::Number(3))]));
    let rv = req.from_request(Some("application/json"), body).ok().unwrap();
    assert_eq!(rv.variant, 0);
    match rv.value {
        PayloadValue::Json(vs) => assert_eq!(int_value(&vs[0]), 3),
        _ => panic!("not the JSON alternative"),
    }

    let rv = req.from_request(Some("text/plain"), Body::Text("hi".to_string())).ok().unwrap();
    assert_eq!(rv.variant, 1);
    assert!(matches!(rv.value, PayloadValue::Text(t) if t == "hi"));
}

#[test]
fn body_decode_failure() {
    let req = two_way_request();
    let body = Body::Json(members(vec![("n", JsonValue::String("x".to_string()))]));
    let err = req.from_request(Some("application/json"), body).err().unwrap();
    assert_eq!(
        err.message(),
        "Failed to parse a request body: failed to parse \"integer(int32)\": Expected input type \"integer(int32)\", found string (occurred while parsing \"A\")"
    );
    let err = req.from_request(Some("application/json"), Body::Bytes(vec![1])).err().unwrap();
    assert!(matches!(err, ParseRequestError::ParseRequestBody { .. }));
    assert_eq!(err.status(), 400);
}

#[test]
fn request_meta_and_register() {
    let req = two_way_request();
    let meta = req.request_meta();
    assert!(meta.required);
    assert_eq!(meta.content.len(), 2);
    assert_eq!(meta.content[0].content_type, "application/json");
    assert_eq!(meta.content[1].content_type, "text/plain");
    let mut registry = Registry::new();
    req.register(&mut registry);
    req.register(&mut registry);
    assert_eq!(registry.schemas.len(), 1);
    assert!(registry.get("A").is_some());
    assert!(registry.get("B").is_none());
    let a_ref = match &req.alternatives[0] {
        Payload::Json(def) => def.schema_ref(),
        _ => unreachable!(),
    };
    let a = registry.resolve(&a_ref);
    assert_eq!(a.ty, SchemaKind::Object);
    assert_eq!(a.properties[0].0, "n");
}

#[test]
fn end_to_end_query_parameter() {
    let opts = || ParamOptions {
        name: "v".to_string(),
        ty: int32(),
        default_value: None,
        validators: vec![Validator::Maximum(100, true)],
    };
    let err = Query::from_request(&pairs(&[("v", "999")]), opts()).err().unwrap();
    assert_eq!(err.status(), 400);
    assert_eq!(
        err.message(),
        "Failed to parse parameter `v`: verification failed. maximum(100, exclusive: true)"
    );
    let ok = Query::from_request(&pairs(&[("v", "50")]), opts()).ok().unwrap();
    assert_eq!(int_value(ok.deref()), 50);
    assert_eq!(Query::param_in(), ParamIn::Query);
}

#[test]
fn parameter_text_errors() {
    let i32ty = ScalarType::Integer(IntFormat::Int32);
    assert_eq!(
        i32ty.parse_from_parameter("12a").unwrap_err().into_message(),
        "failed to parse \"integer(int32)\": invalid digit found in string"
    );
    assert_eq!(
        i32ty.parse_from_parameter("").unwrap_err().into_message(),
        "failed to parse \"integer(int32)\": cannot parse integer from empty string"
    );
    assert_eq!(
        i32ty.parse_from_parameter("-").unwrap_err().into_message(),
        "failed to parse \"integer(int32)\": invalid digit found in string"
    );
    assert_eq!(
        i32ty.parse_from_parameter("99999999999999999999999999").unwrap_err().into_message(),
        "failed to parse \"integer(int32)\": Only integers from -2147483648 to 2147483647 are accepted."
    );
    assert_eq!(i32ty.parse_from_parameter("-17").unwrap(), Scalar::Integer(-17));
    assert_eq!(
        ScalarType::Bool.parse_from_parameter("yes").unwrap_err().into_message(),
        "failed to parse \"boolean\": provided string was not `true` or `false`"
    );
    let list = FieldType::List(ScalarType::Integer(IntFormat::Uint8));
    assert_eq!(
        list.parse_from_parameter(Some("300")).unwrap_err().into_message(),
        "failed to parse \"integer(uint8)\": Only integers from 0 to 255 are accepted. (occurred while parsing \"[integer(uint8)]\")"
    );
    assert!(matches!(
        FieldType::Optional(Box::new(int32())).parse_from_parameter(None),
        Ok(Value::Absent)
    ));
}

#[test]
fn default_and_repeated_keys() {
    let opts = |default_value: Option<Value>| ParamOptions {
        name: "v".to_string(),
        ty: int32(),
        default_value,
        validators: vec![Validator::Minimum(-5, true)],
    };
    let q = Query::from_request(&pairs(&[]), opts(Some(Value::Scalar(Scalar::Integer(9)))))
        .ok()
        .unwrap();
    assert_eq!(int_value(q.deref()), 9);
    let q = Query::from_request(&pairs(&[("v", "1"), ("v", "2")]), opts(None)).ok().unwrap();
    assert_eq!(int_value(q.deref()), 1);
    let err = Query::from_request(&pairs(&[("v", "x")]), opts(Some(Value::Scalar(Scalar::Integer(9)))))
        .err()
        .unwrap();
    assert_eq!(
        err.message(),
        "Failed to parse parameter `v`: failed to parse \"integer(int32)\": invalid digit found in string"
    );
    let err = Query::from_request(&pairs(&[("v", "-5")]), opts(None)).err().unwrap();
    assert_eq!(
        err.message(),
        "Failed to parse parameter `v`: verification failed. minimum(-5, exclusive: true)"
    );
}

#[test]
fn wrong_json_kinds() {
    let a = obj("A", vec![fld("n", int32(), vec![], false)]);
    assert_eq!(
        message_of(a.parse_from_json(&JsonValue::Array(vec![]))),
        "failed to parse \"A\": Expected input type \"A\", found array"
    );
    assert_eq!(
        message_of(a.parse_from_json(&members(vec![]))),
        "failed to parse \"integer(int32)\": Expected input type \"integer(int32)\", found null (occurred while parsing \"A\")"
    );
    let l = obj("L", vec![fld("xs", FieldType::List(ScalarType::Bool), vec![], false)]);
    let xs = JsonValue::Array(vec![JsonValue::Bool(true), JsonValue::Number(1)]);
    assert_eq!(
        message_of(l.parse_from_json(&members(vec![("xs", xs)]))),
        "failed to parse \"boolean\": Expected input type \"boolean\", found number (occurred while parsing \"[boolean]\") (occurred while parsing \"L\")"
    );
}

#[test]
fn validator_checks_and_messages() {
    let ints = Value::List(vec![Scalar::Integer(1), Scalar::Integer(2), Scalar::Integer(1)]);
    assert!(!Validator::UniqueItems.check(&ints));
    assert!(Validator::MaxItems(3).check(&ints));
    assert!(Validator::MultipleOf(-3).check(&Value::Scalar(Scalar::Integer(-9))));
    assert!(!Validator::MultipleOf(0).check(&Value::Scalar(Scalar::Integer(0))));
    assert!(Validator::Maximum(1, false).check(&Value::Absent));
    assert!(!Validator::Pattern("(".to_string()).check(&Value::Scalar(Scalar::Str("(".to_string()))));
    assert!(Validator::Pattern("^a+$".to_string()).check(&Value::Scalar(Scalar::Str("aaa".to_string()))));
    assert_eq!(Validator::Minimum(-5, false).message(), "minimum(-5, exclusive: false)");
    assert_eq!(Validator::MaxItems(3).message(), "maxItems(3)");
}

#[test]
fn make_wraps_closure() {
    let m = make(|ep: u32| ep + 1);
    assert_eq!(m.transform(41), 42);
}

#[test]
fn multipart_fields() {
    let form = obj(
        "F",
        vec![
            fld(
                "values",
                FieldType::List(ScalarType::Integer(IntFormat::Int32)),
                vec![Validator::Maximum(32, false)],
                true,
            ),
            fld("note", FieldType::Optional(Box::new(FieldType::Scalar(ScalarType::Str))), vec![], false),
        ],
    );
    let vs = form.parse_from_parts(&pairs(&[("values", "1"), ("other", "x"), ("values", "32")])).unwrap();
    match &vs[0] {
        Value::List(items) => assert_eq!(items, &vec![Scalar::Integer(1), Scalar::Integer(32)]),
        other => panic!("unexpected {:?}", other),
    }
    assert!(matches!(vs[1], Value::Absent));
    assert_eq!(
        form.parse_from_parts(&pairs(&[("values", "33")])).unwrap_err().into_message(),
        "failed to parse \"F\": field `values` verification failed. maximum(32, exclusive: false)"
    );
    assert_eq!(
        form.parse_from_parts(&pairs(&[("values", "x")])).unwrap_err().into_message(),
        "failed to parse \"integer(int32)\": invalid digit found in string (occurred while parsing \"[integer(int32)]\") (occurred while parsing \"F\")"
    );

    let req = RequestDef { alternatives: vec![Payload::Multipart(form)] };
    let rv = req
        .from_request(Some("multipart/form-data"), Body::Parts(pairs(&[("note", "hi")])))
        .ok()
        .unwrap();
    match rv.value {
        PayloadValue::Form(vs) => {
            assert!(matches!(&vs[0], Value::List(items) if items.is_empty()));
            assert!(matches!(&vs[1], Value::Present(_)));
        },
        _ => panic!("not the form alternative"),
    }
}

#[test]
fn object_json_round_trip() {
    let a = obj(
        "A",
        vec![
            fld("n", int32(), vec![Validator::Maximum(10, false)], false),
            fld("tags", FieldType::List(ScalarType::Str), vec![Validator::UniqueItems], false),
            fld("flag", FieldType::Optional(Box::new(FieldType::Scalar(ScalarType::Bool))), vec![], false),
        ],
    );
    let values = vec![
        Value::Scalar(Scalar::Integer(-3)),
        Value::List(vec![Scalar::Str("x".to_string()), Scalar::Str("y".to_string())]),
        Value::Present(Box::new(Value::Scalar(Scalar::Bool(true)))),
    ];
    let j = a.to_json(&values);
    let back = a.parse_from_json(&j).unwrap();
    assert_eq!(back.len(), values.len());
    for (x, y) in back.iter().zip(values.iter()) {
        assert!(same_value(x, y), "{:?} came back as {:?}", y, x);
    }
}
