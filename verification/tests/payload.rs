use schema_contract::error::{ParseError, PathSegment};
use schema_contract::extract::{ExtractionError, RequestBody};
use schema_contract::json::{JsonKind, JsonMember, JsonNumber, JsonValue};
use schema_contract::payload::{from_document, from_json_body, from_json_bytes, parse_document};

#[test]
fn document_of_every_kind_is_decoded() {
    let bytes = br#"{"a": [null, true, 1, -2, 1.5, "s"], "b": {}}"#;
    let document = parse_document(bytes).unwrap();
    let expected = JsonValue::Object(vec![
        JsonMember {
            name: "a".to_string(),
            value: JsonValue::Array(vec![
                JsonValue::Null,
                JsonValue::Bool(true),
                JsonValue::Number(JsonNumber::PosInt(1)),
                JsonValue::Number(JsonNumber::NegInt(-2)),
                JsonValue::Number(JsonNumber::Float("1.5".to_string())),
                JsonValue::String("s".to_string()),
            ]),
        },
        JsonMember { name: "b".to_string(), value: JsonValue::Object(vec![]) },
    ]);
    assert_eq!(document, expected);
}

#[test]
fn large_numbers_keep_their_value() {
    let document = parse_document(b"[18446744073709551615, -9223372036854775808]").unwrap();
    assert_eq!(
        document,
        JsonValue::Array(vec![
            JsonValue::Number(JsonNumber::PosInt(u64::MAX)),
            JsonValue::Number(JsonNumber::NegInt(i64::MIN)),
        ])
    );
}

#[test]
fn malformed_bytes_give_the_message_of_the_decoder() {
    let bytes = b"[1, 2";
    let expected = serde_json::from_slice::<serde_json::Value>(bytes).unwrap_err().to_string();
    assert!(!expected.is_empty());
    assert_eq!(parse_document(bytes).unwrap_err(), expected);
    match from_json_bytes::<[i32; 2]>(bytes) {
        Err(ExtractionError::MalformedPayload { reason }) => assert_eq!(reason, expected),
        _ => panic!("malformed bytes must be a malformed payload"),
    }
}

#[test]
fn empty_bytes_are_a_malformed_payload() {
    assert!(matches!(
        from_json_bytes::<[i32; 0]>(b""),
        Err(ExtractionError::MalformedPayload { .. })
    ));
}

#[test]
fn bytes_of_three_integers_are_extracted() {
    assert_eq!(from_json_bytes::<[i32; 3]>(b"[1,2,3]").unwrap(), [1, 2, 3]);
    assert_eq!(from_json_bytes::<[i32; 3]>(b" [ 1 , -2 , 3 ] ").unwrap(), [1, -2, 3]);
}

#[test]
fn parse_error_is_the_error_of_the_extraction() {
    match from_json_bytes::<[i32; 3]>(b"[1,2]") {
        Err(ExtractionError::Parse { error }) => assert!(matches!(
            error,
            ParseError::LengthMismatch { expected_len: 3, found_len: 2 }
        )),
        _ => panic!("a short array must be a parse error"),
    }
    match from_json_bytes::<[i32; 2]>(br#"[1,"x"]"#) {
        Err(ExtractionError::Parse { error }) => {
            assert!(matches!(error.path()[0], PathSegment::Index(1)));
            match error.root_cause() {
                ParseError::TypeMismatch { expected, found } => {
                    assert_eq!(expected, "integer(int32)");
                    assert_eq!(*found, JsonKind::String);
                }
                other => panic!("unexpected cause: {:?}", other),
            }
        }
        _ => panic!("a wrong element must be a parse error"),
    }
    match from_json_bytes::<[i32; 2]>(br#"{"a": 1}"#) {
        Err(ExtractionError::Parse { error }) => match error {
            ParseError::TypeMismatch { found, .. } => assert_eq!(found, JsonKind::Object),
            other => panic!("unexpected error: {:?}", other),
        },
        _ => panic!("an object must be a parse error"),
    }
}

#[test]
fn decoded_document_decides_the_result() {
    let ok: Result<JsonValue, String> = Ok(JsonValue::Array(vec![JsonValue::Bool(true)]));
    assert_eq!(from_document::<[bool; 1]>(ok).unwrap(), [true]);

    let wrong: Result<JsonValue, String> = Ok(JsonValue::Null);
    assert!(matches!(
        from_document::<[bool; 1]>(wrong),
        Err(ExtractionError::Parse { error: ParseError::TypeMismatch { .. } })
    ));

    let broken: Result<JsonValue, String> = Err("broken".to_string());
    match from_document::<[bool; 1]>(broken) {
        Err(ExtractionError::MalformedPayload { reason }) => assert_eq!(reason, "broken"),
        _ => panic!("a decoder's error must be a malformed payload"),
    }
}

#[test]
fn body_is_taken_once() {
    let mut body = RequestBody::new(b"abc".to_vec());
    assert!(!body.is_consumed());
    assert_eq!(body.take().unwrap(), b"abc".to_vec());
    assert!(body.is_consumed());
    assert!(matches!(body.take(), Err(ExtractionError::BodyAlreadyConsumed)));
    assert!(matches!(body.take(), Err(ExtractionError::BodyAlreadyConsumed)));
    assert!(body.is_consumed());
}

#[test]
fn second_extraction_from_a_body_fails() {
    let mut body = RequestBody::new(b"[1,2,3]".to_vec());
    assert_eq!(from_json_body::<[i32; 3]>(&mut body).unwrap(), [1, 2, 3]);
    assert!(body.is_consumed());
    assert!(matches!(
        from_json_body::<[i32; 3]>(&mut body),
        Err(ExtractionError::BodyAlreadyConsumed)
    ));
    assert!(matches!(
        from_json_body::<[i32; 0]>(&mut body),
        Err(ExtractionError::BodyAlreadyConsumed)
    ));
}

#[test]
fn failed_extraction_consumes_the_body_too() {
    let mut body = RequestBody::new(b"[1,2".to_vec());
    assert!(matches!(
        from_json_body::<[i32; 2]>(&mut body),
        Err(ExtractionError::MalformedPayload { .. })
    ));
    assert!(body.is_consumed());
    assert!(matches!(
        from_json_body::<[i32; 2]>(&mut body),
        Err(ExtractionError::BodyAlreadyConsumed)
    ));

    let mut body = RequestBody::new(b"[1]".to_vec());
    assert!(matches!(
        from_json_body::<[i32; 2]>(&mut body),
        Err(ExtractionError::Parse { .. })
    ));
    assert!(matches!(
        from_json_body::<[i32; 1]>(&mut body),
        Err(ExtractionError::BodyAlreadyConsumed)
    ));
}
