use poem_openapi::error::ParseRequestError;
use poem_openapi::json::JsonValue;
use poem_openapi::object::{FieldDef, ObjectDef};
use poem_openapi::param::{ParamOptions, Query};
use poem_openapi::registry::{Registry, SchemaKind, SchemaMeta};
use poem_openapi::types::{FieldType, IntFormat, Scalar, ScalarType, Value};
use poem_openapi::validation::Validator;

fn field(name: &str, ty: FieldType, validators: Vec<Validator>, list: bool) -> FieldDef {
    FieldDef { name: name.to_string(), ty, validators, list }
}

fn object(fields: Vec<FieldDef>) -> ObjectDef {
    ObjectDef { name: "A".to_string(), fields }
}

fn json(members: Vec<(&str, JsonValue)>) -> JsonValue {
    JsonValue::Object(members.into_iter().map(|(k, v)| (k.to_string(), v)).collect())
}

fn num(n: i128) -> JsonValue {
    JsonValue::Number(n)
}

fn string(s: &str) -> JsonValue {
    JsonValue::String(s.to_string())
}

fn strings(items: &[&str]) -> JsonValue {
    JsonValue::Array(items.iter().map(|s| string(s)).collect())
}

fn integer(f: IntFormat) -> FieldType {
    FieldType::Scalar(ScalarType::Integer(f))
}

fn optional(ty: FieldType) -> FieldType {
    FieldType::Optional(Box::new(ty))
}

fn as_int(v: &Value) -> i128 {
    match v {
        Value::Scalar(Scalar::Integer(n)) => *n,
        other => panic!("not an integer: {:?}", other),
    }
}

fn as_str(v: &Value) -> String {
    match v {
        Value::Scalar(Scalar::Str(s)) => s.clone(),
        other => panic!("not a string: {:?}", other),
    }
}

fn as_strings(v: &Value) -> Vec<String> {
    match v {
        Value::List(items) => items
            .iter()
            .map(|s| match s {
                Scalar::Str(t) => t.clone(),
                other => panic!("not a string: {:?}", other),
            })
            .collect(),
        other => panic!("not a list: {:?}", other),
    }
}

fn as_ints(v: &Value) -> Vec<i128> {
    match v {
        Value::List(items) => items
            .iter()
            .map(|s| match s {
                Scalar::Integer(n) => *n,
                other => panic!("not an integer: {:?}", other),
            })
            .collect(),
        other => panic!("not a list: {:?}", other),
    }
}

fn error_of(def: &ObjectDef, j: &JsonValue) -> String {
    def.parse_from_json(j).unwrap_err().into_message()
}

#[test]
fn test_u64() {
    let a = object(vec![field("n", integer(IntFormat::Uint64), vec![], false)]);
    let vs = a.parse_from_json(&json(vec![("n", num(1))])).unwrap();
    assert_eq!(vs.len(), 1);
    assert_eq!(as_int(&vs[0]), 1);
}

#[test]
fn test_multiple_of() {
    let a = object(vec![field("n", integer(IntFormat::Int32), vec![Validator::MultipleOf(10)], false)]);
    let vs = a.parse_from_json(&json(vec![("n", num(20))])).unwrap();
    assert_eq!(as_int(&vs[0]), 20);
    assert_eq!(
        error_of(&a, &json(vec![("n", num(25))])),
        "failed to parse \"A\": field `n` verification failed. multipleOf(10)"
    );

    let mut schema = SchemaMeta::new(SchemaKind::String);
    Validator::MultipleOf(10).update_meta(&mut schema);
    assert_eq!(schema.multiple_of, Some(10));
}

#[test]
fn test_maximum() {
    let a = object(vec![field("n", integer(IntFormat::Int32), vec![Validator::Maximum(500, false)], false)]);
    assert_eq!(as_int(&a.parse_from_json(&json(vec![("n", num(400))])).unwrap()[0]), 400);
    assert_eq!(as_int(&a.parse_from_json(&json(vec![("n", num(500))])).unwrap()[0]), 500);
    assert_eq!(
        error_of(&a, &json(vec![("n", num(530))])),
        "failed to parse \"A\": field `n` verification failed. maximum(500, exclusive: false)"
    );

    let mut schema = SchemaMeta::new(SchemaKind::String);
    Validator::Maximum(10, false).update_meta(&mut schema);
    assert_eq!(schema.maximum, Some(10));
    assert_eq!(schema.exclusive_maximum, None);
}

#[test]
fn test_maximum_exclusive() {
    let a = object(vec![field("n", integer(IntFormat::Int32), vec![Validator::Maximum(500, true)], false)]);
    assert_eq!(as_int(&a.parse_from_json(&json(vec![("n", num(400))])).unwrap()[0]), 400);
    assert_eq!(
        error_of(&a, &json(vec![("n", num(500))])),
        "failed to parse \"A\": field `n` verification failed. maximum(500, exclusive: true)"
    );
    assert_eq!(
        error_of(&a, &json(vec![("n", num(530))])),
        "failed to parse \"A\": field `n` verification failed. maximum(500, exclusive: true)"
    );

    let mut schema = SchemaMeta::new(SchemaKind::String);
    Validator::Maximum(10, true).update_meta(&mut schema);
    assert_eq!(schema.maximum, Some(10));
    assert_eq!(schema.exclusive_maximum, Some(true));
}

#[test]
fn test_max_length() {
    let a = object(vec![field(
        "value",
        FieldType::Scalar(ScalarType::Str),
        vec![Validator::MaxLength(5)],
        false,
    )]);
    let vs = a.parse_from_json(&json(vec![("value", string("abcd"))])).unwrap();
    assert_eq!(as_str(&vs[0]), "abcd".to_string());
    assert_eq!(
        error_of(&a, &json(vec![("value", string("abcdef"))])),
        "failed to parse \"A\": field `value` verification failed. maxLength(5)"
    );

    let mut schema = SchemaMeta::new(SchemaKind::String);
    Validator::MaxLength(10).update_meta(&mut schema);
    assert_eq!(schema.max_length, Some(10));
}

#[test]
fn test_min_length() {
    let a = object(vec![field(
        "value",
        FieldType::Scalar(ScalarType::Str),
        vec![Validator::MinLength(5)],
        false,
    )]);
    let vs = a.parse_from_json(&json(vec![("value", string("abcdef"))])).unwrap();
    assert_eq!(as_str(&vs[0]), "abcdef".to_string());
    assert_eq!(
        error_of(&a, &json(vec![("value", string("abcd"))])),
        "failed to parse \"A\": field `value` verification failed. minLength(5)"
    );

    let mut schema = SchemaMeta::new(SchemaKind::String);
    Validator::MinLength(10).update_meta(&mut schema);
    assert_eq!(schema.min_length, Some(10));
}

#[test]
fn test_pattern() {
    let a = object(vec![field(
        "value",
        FieldType::Scalar(ScalarType::Str),
        vec![Validator::Pattern(r#"\[.*\]"#.to_string())],
        false,
    )]);
    let vs = a.parse_from_json(&json(vec![("value", string("[123]"))])).unwrap();
    assert_eq!(as_str(&vs[0]), "[123]".to_string());
    assert_eq!(
        error_of(&a, &json(vec![("value", string("123"))])),
        r#"failed to parse "A": field `value` verification failed. pattern("\[.*\]")"#
    );

    let mut schema = SchemaMeta::new(SchemaKind::String);
    Validator::Pattern(r#"\[.*\]"#.to_string()).update_meta(&mut schema);
    assert_eq!(schema.pattern.as_deref(), Some(r#"\[.*\]"#));
}

#[test]
fn test_max_items() {
    let a = object(vec![field(
        "values",
        FieldType::List(ScalarType::Str),
        vec![Validator::MaxItems(3)],
        false,
    )]);
    let vs = a.parse_from_json(&json(vec![("values", strings(&["1", "2", "3"]))])).unwrap();
    assert_eq!(as_strings(&vs[0]), vec!["1".to_string(), "2".to_string(), "3".to_string()]);
    assert_eq!(
        error_of(&a, &json(vec![("values", strings(&["1", "2", "3", "4"]))])),
        "failed to parse \"A\": field `values` verification failed. maxItems(3)"
    );

    let mut schema = SchemaMeta::new(SchemaKind::String);
    Validator::MaxItems(10).update_meta(&mut schema);
    assert_eq!(schema.max_items, Some(10));
}

#[test]
fn test_min_items() {
    let a = object(vec![field(
        "values",
        FieldType::List(ScalarType::Str),
        vec![Validator::MinItems(4)],
        false,
    )]);
    let vs = a.parse_from_json(&json(vec![("values", strings(&["1", "2", "3", "4"]))])).unwrap();
    assert_eq!(
        as_strings(&vs[0]),
        vec!["1".to_string(), "2".to_string(), "3".to_string(), "4".to_string()]
    );
    assert_eq!(
        error_of(&a, &json(vec![("values", strings(&["1", "2", "3"]))])),
        "failed to parse \"A\": field `values` verification failed. minItems(4)"
    );

    let mut schema = SchemaMeta::new(SchemaKind::String);
    Validator::MinItems(10).update_meta(&mut schema);
    assert_eq!(schema.min_items, Some(10));
}

#[test]
fn test_unique_items() {
    let a = object(vec![field(
        "values",
        FieldType::List(ScalarType::Str),
        vec![Validator::UniqueItems],
        false,
    )]);
    let vs = a.parse_from_json(&json(vec![("values", strings(&["1", "2", "3"]))])).unwrap();
    assert_eq!(as_strings(&vs[0]), vec!["1".to_string(), "2".to_string(), "3".to_string()]);
    assert_eq!(
        error_of(&a, &json(vec![("values", strings(&["1", "2", "2"]))])),
        "failed to parse \"A\": field `values` verification failed. uniqueItems()"
    );

    let mut schema = SchemaMeta::new(SchemaKind::String);
    Validator::UniqueItems.update_meta(&mut schema);
    assert_eq!(schema.unique_items, Some(true));
}

fn v_options() -> ParamOptions {
    ParamOptions {
        name: "v".to_string(),
        ty: integer(IntFormat::Int32),
        default_value: None,
        validators: vec![Validator::Maximum(100, true)],
    }
}

fn query(pairs: &[(&str, &str)]) -> Vec<(String, String)> {
    pairs.iter().map(|(k, v)| (k.to_string(), v.to_string())).collect()
}

#[test]
fn param_validator() {
    let err = match Query::from_request(&query(&[("v", "999")]), v_options()) {
        Err(e) => e,
        Ok(_) => panic!("999 passed an exclusive maximum of 100"),
    };
    assert_eq!(err.status(), 400);
    assert_eq!(
        err.message(),
        "Failed to parse parameter `v`: verification failed. maximum(100, exclusive: true)"
    );

    let schema_ref = Query::param_schema_ref(&v_options());
    assert_eq!(schema_ref.unwrap_inline().maximum, Some(100));
    assert_eq!(schema_ref.unwrap_inline().exclusive_maximum, Some(true));

    let ok = Query::from_request(&query(&[("v", "50")]), v_options());
    match ok {
        Ok(q) => assert_eq!(as_int(q.deref()), 50),
        Err(e) => panic!("50 was refused: {}", e.message()),
    }
}

#[test]
fn test_option() {
    let a = object(vec![
        field("n1", optional(integer(IntFormat::Int32)), vec![Validator::MultipleOf(10)], false),
        field(
            "n2",
            optional(optional(integer(IntFormat::Int32))),
            vec![Validator::MultipleOf(10)],
            false,
        ),
    ]);

    let vs = a.parse_from_json(&json(vec![("n1", num(20))])).unwrap();
    match (&vs[0], &vs[1]) {
        (Value::Present(n1), Value::Absent) => assert_eq!(as_int(n1), 20),
        other => panic!("unexpected {:?}", other),
    }

    let vs = a.parse_from_json(&json(vec![("n2", num(20))])).unwrap();
    match (&vs[0], &vs[1]) {
        (Value::Absent, Value::Present(outer)) => match outer.as_ref() {
            Value::Present(inner) => assert_eq!(as_int(inner), 20),
            other => panic!("unexpected {:?}", other),
        },
        other => panic!("unexpected {:?}", other),
    }

    let vs = a.parse_from_json(&json(vec![("n2", JsonValue::Null)])).unwrap();
    assert!(matches!((&vs[0], &vs[1]), (Value::Absent, Value::Absent)));

    assert_eq!(
        error_of(&a, &json(vec![("n1", num(25))])),
        "failed to parse \"A\": field `n1` verification failed. multipleOf(10)"
    );
    assert_eq!(
        error_of(&a, &json(vec![("n2", num(25))])),
        "failed to parse \"A\": field `n2` verification failed. multipleOf(10)"
    );
}

#[test]
fn test_multiple_validators() {
    let a = object(vec![field(
        "n",
        integer(IntFormat::Int32),
        vec![Validator::MultipleOf(10), Validator::Maximum(500, false)],
        false,
    )]);
    assert_eq!(as_int(&a.parse_from_json(&json(vec![("n", num(20))])).unwrap()[0]), 20);
    assert_eq!(
        error_of(&a, &json(vec![("n", num(25))])),
        "failed to parse \"A\": field `n` verification failed. multipleOf(10)"
    );
    assert_eq!(
        error_of(&a, &json(vec![("n", num(530))])),
        "failed to parse \"A\": field `n` verification failed. maximum(500, exclusive: false)"
    );
}

#[test]
fn test_unsigned_integers() {
    let a = object(vec![
        field("u8", integer(IntFormat::Uint8), vec![], false),
        field("u16", integer(IntFormat::Uint16), vec![], false),
        field("u32", integer(IntFormat::Uint32), vec![], false),
        field("u64", integer(IntFormat::Uint64), vec![], false),
    ]);
    let vs = a
        .parse_from_json(&json(vec![
            ("u8", num(u8::MAX as i128)),
            ("u16", num(u16::MAX as i128)),
            ("u32", num(u32::MAX as i128)),
            ("u64", num(u64::MAX as i128)),
        ]))
        .unwrap();
    let got: Vec<i128> = vs.iter().map(as_int).collect();
    assert_eq!(
        got,
        vec![u8::MAX as i128, u16::MAX as i128, u32::MAX as i128, u64::MAX as i128]
    );
    assert_eq!(
        error_of(
            &a,
            &json(vec![
                ("u8", num(u8::MAX as i128 + 1)),
                ("u16", num(u16::MAX as i128)),
                ("u32", num(u32::MAX as i128)),
                ("u64", num(u64::MAX as i128)),
            ])
        ),
        "failed to parse \"integer(uint8)\": Only integers from 0 to 255 are accepted. (occurred while parsing \"A\")"
    );
}

#[test]
fn test_list_on_object() {
    let a = object(vec![field(
        "n",
        FieldType::List(ScalarType::Integer(IntFormat::Int32)),
        vec![Validator::Maximum(10, false)],
        true,
    )]);
    let ns = JsonValue::Array(vec![num(1), num(2), num(3)]);
    let vs = a.parse_from_json(&json(vec![("n", ns)])).unwrap();
    assert_eq!(as_ints(&vs[0]), vec![1, 2, 3]);
    let ns = JsonValue::Array(vec![num(1), num(2), num(3), num(25)]);
    assert_eq!(
        error_of(&a, &json(vec![("n", ns)])),
        "failed to parse \"A\": field `n` verification failed. maximum(10, exclusive: false)"
    );

    let mut registry = Registry::new();
    a.register(&mut registry);
    let schema = registry.get("A").unwrap();
    let (name, field_n) = &schema.properties[0];
    assert_eq!(name, "n");

    let schema_n = field_n.unwrap_inline();
    let schema_items = schema_n.items.as_ref().unwrap();
    let schema_items = schema_items.unwrap_inline();
    assert_eq!(schema_items.maximum, Some(10));
}

#[test]
fn test_list_on_multipart() {
    let a = object(vec![field(
        "values",
        FieldType::List(ScalarType::Integer(IntFormat::Int32)),
        vec![Validator::Maximum(32, false)],
        true,
    )]);

    let schema_ref = a.inline_schema_ref();
    let schema: &SchemaMeta = schema_ref.unwrap_inline();
    assert_eq!(schema.ty.name(), "object");
    assert_eq!(schema.properties.len(), 1);

    assert_eq!(schema.properties[0].0, "values");
    let schema_values = schema.properties[0].1.unwrap_inline();
    assert_eq!(schema_values.ty.name(), "array");

    let schema_items = schema_values.items.as_ref().unwrap();
    let schema_items = schema_items.unwrap_inline();
    assert_eq!(schema_items.maximum, Some(32));
}

#[test]
fn missing_parameter_without_default_fails() {
    match Query::from_request(&query(&[]), v_options()) {
        Err(ParseRequestError::ParseParam { name, reason }) => {
            assert_eq!(name, "v");
            assert_eq!(
                reason,
                "failed to parse \"integer(int32)\": Type \"integer(int32)\" expects an input value."
            );
        },
        _ => panic!("a missing required parameter was accepted"),
    }
}
