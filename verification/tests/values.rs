use schema_contract::error::{ParseError, PathSegment};
use schema_contract::json::{JsonKind, JsonMember, JsonNumber, JsonValue};
use schema_contract::primitives::{integer_to_json, parse_integer};
use schema_contract::registry::{MetaSchema, MetaSchemaRef};
use schema_contract::types::{ParseFromJSON, ToJSON, Type};

fn member(name: &str, value: JsonValue) -> JsonMember {
    JsonMember { name: name.to_string(), value }
}

#[test]
fn kinds_of_values() {
    assert_eq!(JsonValue::Null.kind(), JsonKind::Null);
    assert_eq!(JsonValue::Bool(true).kind(), JsonKind::Bool);
    assert_eq!(JsonValue::Number(JsonNumber::NegInt(-1)).kind(), JsonKind::Number);
    assert_eq!(JsonValue::Number(JsonNumber::Float("1.5".to_string())).kind(), JsonKind::Number);
    assert_eq!(JsonValue::String(String::new()).kind(), JsonKind::String);
    assert_eq!(JsonValue::Array(vec![]).kind(), JsonKind::Array);
    assert_eq!(JsonValue::Object(vec![]).kind(), JsonKind::Object);
}

#[test]
fn equal_values_are_the_same() {
    let a = JsonValue::Object(vec![
        member("a", JsonValue::Array(vec![JsonValue::Null, JsonValue::Bool(false)])),
        member("b", JsonValue::String("x".to_string())),
    ]);
    let b = JsonValue::Object(vec![
        member("a", JsonValue::Array(vec![JsonValue::Null, JsonValue::Bool(false)])),
        member("b", JsonValue::String("x".to_string())),
    ]);
    assert!(a.same_as(&b));
    assert!(a == b);
}

#[test]
fn different_values_are_not_the_same() {
    let a = JsonValue::Array(vec![JsonValue::Null, JsonValue::Bool(false)]);
    assert!(!a.same_as(&JsonValue::Array(vec![JsonValue::Null, JsonValue::Bool(true)])));
    assert!(!a.same_as(&JsonValue::Array(vec![JsonValue::Null])));
    assert!(!a.same_as(&JsonValue::Array(vec![JsonValue::Bool(false), JsonValue::Null])));
    assert!(!a.same_as(&JsonValue::Null));
    let named = JsonValue::Object(vec![member("a", JsonValue::Null)]);
    assert!(!named.same_as(&JsonValue::Object(vec![member("b", JsonValue::Null)])));
    assert!(!named.same_as(&JsonValue::Object(vec![member("a", JsonValue::Bool(true))])));
    assert!(!named.same_as(&JsonValue::Object(vec![])));
    assert!(a != named);
}

#[test]
fn numbers_compare_by_what_they_hold() {
    assert!(JsonNumber::PosInt(5).same_as(&JsonNumber::PosInt(5)));
    assert!(JsonNumber::PosInt(5).same_as(&JsonNumber::NegInt(5)));
    assert!(JsonNumber::NegInt(5).same_as(&JsonNumber::PosInt(5)));
    assert!(!JsonNumber::PosInt(5).same_as(&JsonNumber::NegInt(-5)));
    assert!(!JsonNumber::PosInt(u64::MAX).same_as(&JsonNumber::NegInt(-1)));
    assert!(JsonNumber::Float("1.5".to_string()).same_as(&JsonNumber::Float("1.5".to_string())));
    assert!(!JsonNumber::Float("1.5".to_string()).same_as(&JsonNumber::Float("2.5".to_string())));
    assert!(!JsonNumber::Float("5".to_string()).same_as(&JsonNumber::PosInt(5)));
}

#[test]
fn integers_are_written_by_sign() {
    assert!(matches!(integer_to_json(0), JsonValue::Number(JsonNumber::PosInt(0))));
    assert!(matches!(integer_to_json(42), JsonValue::Number(JsonNumber::PosInt(42))));
    assert!(matches!(integer_to_json(-42), JsonValue::Number(JsonNumber::NegInt(-42))));
    assert!(matches!(
        integer_to_json(i64::MIN),
        JsonValue::Number(JsonNumber::NegInt(i64::MIN))
    ));
}

#[test]
fn integer_within_range_is_read() {
    let name = || "n".to_string();
    assert_eq!(parse_integer(integer_to_json(7), name(), 0, 10).unwrap(), 7);
    assert_eq!(parse_integer(integer_to_json(0), name(), 0, 10).unwrap(), 0);
    assert_eq!(parse_integer(integer_to_json(10), name(), 0, 10).unwrap(), 10);
    assert_eq!(parse_integer(integer_to_json(-3), name(), -3, -1).unwrap(), -3);
    assert_eq!(
        parse_integer(JsonValue::Number(JsonNumber::NegInt(4)), name(), 0, 10).unwrap(),
        4
    );
}

#[test]
fn integer_out_of_range_is_refused() {
    let name = || "n".to_string();
    for value in [11, -1, i64::MAX, i64::MIN] {
        match parse_integer(integer_to_json(value), name(), 0, 10).unwrap_err() {
            ParseError::Custom { message } => assert_eq!(message, "the integer is out of range"),
            other => panic!("unexpected error: {:?}", other),
        }
    }
    let huge = JsonValue::Number(JsonNumber::PosInt(u64::MAX));
    assert!(matches!(
        parse_integer(huge, name(), i64::MIN, i64::MAX).unwrap_err(),
        ParseError::Custom { .. }
    ));
    assert!(matches!(
        parse_integer(integer_to_json(5), name(), 10, 0).unwrap_err(),
        ParseError::Custom { .. }
    ));
}

#[test]
fn number_with_a_fraction_is_no_integer() {
    let value = JsonValue::Number(JsonNumber::Float("1.5".to_string()));
    match i32::parse_from_json(value).unwrap_err() {
        ParseError::Custom { message } => assert_eq!(message, "the number is not an integer"),
        other => panic!("unexpected error: {:?}", other),
    }
}

#[test]
fn thirty_two_bit_integers() {
    assert_eq!(i32::parse_from_json(integer_to_json(i32::MAX as i64)).unwrap(), i32::MAX);
    assert_eq!(i32::parse_from_json(integer_to_json(i32::MIN as i64)).unwrap(), i32::MIN);
    assert!(matches!(
        i32::parse_from_json(integer_to_json(i32::MAX as i64 + 1)).unwrap_err(),
        ParseError::Custom { .. }
    ));
    assert!(matches!(
        i32::parse_from_json(integer_to_json(i32::MIN as i64 - 1)).unwrap_err(),
        ParseError::Custom { .. }
    ));
    match i32::parse_from_json(JsonValue::String("1".to_string())).unwrap_err() {
        ParseError::TypeMismatch { expected, found } => {
            assert_eq!(expected, "integer(int32)");
            assert_eq!(found, JsonKind::String);
        }
        other => panic!("unexpected error: {:?}", other),
    }
    assert_eq!((-5i32).to_json(), integer_to_json(-5));
    assert_eq!(i32::name(), "integer(int32)");
    assert!(i32::schema_ref().same_as(&MetaSchemaRef::Inline(Box::new(
        MetaSchema::new_with_format("integer", "int32")
    ))));
}

#[test]
fn sixty_four_bit_integers() {
    assert_eq!(i64::parse_from_json(integer_to_json(i64::MAX)).unwrap(), i64::MAX);
    assert_eq!(i64::parse_from_json(integer_to_json(i64::MIN)).unwrap(), i64::MIN);
    let beyond = JsonValue::Number(JsonNumber::PosInt(i64::MAX as u64 + 1));
    assert!(matches!(i64::parse_from_json(beyond).unwrap_err(), ParseError::Custom { .. }));
    assert_eq!(i64::MAX.to_json(), JsonValue::Number(JsonNumber::PosInt(i64::MAX as u64)));
    assert_eq!(i64::name(), "integer(int64)");
    assert!(i64::schema_ref().same_as(&MetaSchemaRef::Inline(Box::new(
        MetaSchema::new_with_format("integer", "int64")
    ))));
    assert!(!i64::schema_ref().same_as(&i32::schema_ref()));
}

#[test]
fn booleans() {
    assert!(bool::parse_from_json(JsonValue::Bool(true)).unwrap());
    assert!(!bool::parse_from_json(JsonValue::Bool(false)).unwrap());
    match bool::parse_from_json(JsonValue::Null).unwrap_err() {
        ParseError::TypeMismatch { expected, found } => {
            assert_eq!(expected, "boolean");
            assert_eq!(found, JsonKind::Null);
        }
        other => panic!("unexpected error: {:?}", other),
    }
    assert_eq!(true.to_json(), JsonValue::Bool(true));
    assert_eq!(bool::name(), "boolean");
    assert!(bool::schema_ref().same_as(&MetaSchemaRef::Inline(Box::new(MetaSchema::new(
        "boolean"
    )))));
}

#[test]
fn strings() {
    let parsed = String::parse_from_json(JsonValue::String("héllo".to_string())).unwrap();
    assert_eq!(parsed, "héllo");
    match String::parse_from_json(integer_to_json(1)).unwrap_err() {
        ParseError::TypeMismatch { expected, found } => {
            assert_eq!(expected, "string");
            assert_eq!(found, JsonKind::Number);
        }
        other => panic!("unexpected error: {:?}", other),
    }
    assert_eq!("héllo".to_string().to_json(), JsonValue::String("héllo".to_string()));
    assert_eq!(String::name(), "string");
    assert!(String::schema_ref().same_as(&MetaSchemaRef::Inline(Box::new(MetaSchema::new(
        "string"
    )))));
}

#[test]
fn error_constructors_build_their_variants() {
    let mismatch = ParseError::expected_type("string".to_string(), &JsonValue::Array(vec![]));
    match mismatch {
        ParseError::TypeMismatch { expected, found } => {
            assert_eq!(expected, "string");
            assert_eq!(found, JsonKind::Array);
        }
        other => panic!("unexpected error: {:?}", other),
    }
    assert!(matches!(
        ParseError::length_mismatch(3, 2),
        ParseError::LengthMismatch { expected_len: 3, found_len: 2 }
    ));
    match ParseError::missing_field("id".to_string()) {
        ParseError::MissingField { name } => assert_eq!(name, "id"),
        other => panic!("unexpected error: {:?}", other),
    }
    match ParseError::custom("no".to_string()) {
        ParseError::Custom { message } => assert_eq!(message, "no"),
        other => panic!("unexpected error: {:?}", other),
    }
}

#[test]
fn propagation_prepends_the_context_and_keeps_the_cause() {
    let inner = ParseError::custom("no".to_string());
    assert_eq!(inner.path().len(), 0);
    assert!(matches!(inner.root_cause(), ParseError::Custom { .. }));

    let wrapped = inner
        .propagate(PathSegment::Field("x".to_string()))
        .propagate(PathSegment::Index(1));
    let path = wrapped.path();
    assert_eq!(path.len(), 2);
    assert!(matches!(path[0], PathSegment::Index(1)));
    match &path[1] {
        PathSegment::Field(name) => assert_eq!(name, "x"),
        other => panic!("unexpected segment: {:?}", other),
    }
    match wrapped.root_cause() {
        ParseError::Custom { message } => assert_eq!(message, "no"),
        other => panic!("unexpected cause: {:?}", other),
    }
    match wrapped {
        ParseError::Propagated { context, cause } => {
            assert!(matches!(context, PathSegment::Index(1)));
            assert!(matches!(*cause, ParseError::Propagated { .. }));
        }
        other => panic!("unexpected error: {:?}", other),
    }
}

#[test]
fn segments_are_duplicated_as_they_are() {
    assert!(matches!(PathSegment::Index(9).duplicate(), PathSegment::Index(9)));
    match PathSegment::Field("f".to_string()).duplicate() {
        PathSegment::Field(name) => assert_eq!(name, "f"),
        other => panic!("unexpected segment: {:?}", other),
    }
}
