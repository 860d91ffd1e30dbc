//! Typed values from a JSON body: the bytes are decoded by `serde_json`, and
//! the document is handed to the type's own parser.

use crate::extract::{ExtractionError, ExtractionFailure, RequestBody};
use crate::json::{JsonData, JsonMember, JsonNumber, JsonValue};
use crate::types::ParseFromJSON;
use serde_json::Value;
use vstd::prelude::*;

verus! {

/// A JSON document as `serde_json` holds it. Nothing is known of what is
/// inside but through [`document_data`].
#[verifier::external_type_specification]
#[verifier::external_body]
pub struct ExDocument(serde_json::Value);

/// What `serde_json::from_slice` makes of `bytes`: the document that they
/// spell, or the message of its error where they spell none.
pub uninterp spec fn json_document(bytes: Seq<u8>) -> Result<JsonData, Seq<char>>;

/// The tree that a document of `serde_json` holds.
pub uninterp spec fn document_data(document: serde_json::Value) -> JsonData;

/// `serde_json::from_slice` at the type `serde_json::Value`: decodes `bytes`
/// as one JSON document, or fails with an error, of which the message is
/// handed on. The same bytes give the same document or the same message.
#[verifier::external_body]
fn decode_document(bytes: &[u8]) -> (r: Result<serde_json::Value, String>)
    ensures
        match r {
            Ok(document) => json_document(bytes@) == Ok::<JsonData, Seq<char>>(
                document_data(document),
            ),
            Err(reason) => json_document(bytes@) == Err::<JsonData, Seq<char>>(reason@),
        },
{
    serde_json::from_slice::<Value>(bytes).map_err(|error| error.to_string())
}

/// Moves a document of `serde_json` into a [`JsonValue`], variant by variant:
/// `Value::Null`, `Bool`, `Number` (an integer by `Number::as_u64` or
/// `Number::as_i64`, any other number as the text of its `Display`),
/// `String`, `Array` and `Object` (the members in the order in which the map
/// hands them out).
#[verifier::external_body]
fn lift_document(document: serde_json::Value) -> (r: JsonValue)
    ensures
        r@ == document_data(document),
{
    match document {
        Value::Null => JsonValue::Null,
        Value::Bool(b) => JsonValue::Bool(b),
        Value::Number(n) => JsonValue::Number(match (n.as_u64(), n.as_i64()) {
            (Some(u), _) => JsonNumber::PosInt(u),
            (_, Some(i)) => JsonNumber::NegInt(i),
            _ => JsonNumber::Float(n.to_string()),
        }),
        Value::String(s) => JsonValue::String(s),
        Value::Array(items) => JsonValue::Array(items.into_iter().map(lift_document).collect()),
        Value::Object(members) => JsonValue::Object(
            members.into_iter().map(|(name, v)| JsonMember { name, value: lift_document(v) }).collect(),
        ),
    }
}

/// The model of the outcome of an extraction.
pub open spec fn extraction_outcome<T: DeepView>(r: Result<T, ExtractionError>) -> Result<
    T::V,
    ExtractionFailure,
> {
    match r {
        Ok(value) => Ok(value.deep_view()),
        Err(error) => Err(error@),
    }
}

/// The model of a decoded body: the document or the decoder's message.
pub open spec fn document_outcome(document: Result<JsonValue, String>) -> Result<
    JsonData,
    Seq<char>,
> {
    match document {
        Ok(value) => Ok(value@),
        Err(reason) => Err(reason@),
    }
}

/// What extracting a `T` yields from a body that was decoded to `document`.
pub open spec fn payload_spec<T: ParseFromJSON>(document: Result<JsonData, Seq<char>>) -> Result<
    T::V,
    ExtractionFailure,
> {
    match document {
        Ok(data) => match T::parse_spec(data) {
            Ok(value) => Ok(value),
            Err(failure) => Err(ExtractionFailure::Parse { failure }),
        },
        Err(reason) => Err(ExtractionFailure::MalformedPayload { reason }),
    }
}

/// What extracting a `T` from a body handle yields, and what is left in the
/// handle: nothing, whatever was in it.
pub open spec fn body_spec<T: ParseFromJSON>(content: Option<Seq<u8>>) -> (
    Option<Seq<u8>>,
    Result<T::V, ExtractionFailure>,
) {
    match content {
        Some(bytes) => (None, payload_spec::<T>(json_document(bytes))),
        None => (None, Err(ExtractionFailure::BodyAlreadyConsumed)),
    }
}

/// The bytes that a body handle still holds.
pub open spec fn body_bytes(body: RequestBody<Vec<u8>>) -> Option<Seq<u8>> {
    match body.content() {
        Some(bytes) => Some(bytes@),
        None => None,
    }
}

/// Decodes `bytes` as one JSON document.
pub fn parse_document(bytes: &[u8]) -> (r: Result<JsonValue, String>)
    ensures
        document_outcome(r) == json_document(bytes@),
{
    match decode_document(bytes) {
        Ok(document) => Ok(lift_document(document)),
        Err(reason) => Err(reason),
    }
}

/// The typed value that a decoded body holds: a body that is no JSON document
/// is a malformed payload with the decoder's message; a document goes to the
/// parser of `T`, whose error is the error of the extraction.
pub fn from_document<T: ParseFromJSON>(document: Result<JsonValue, String>) -> (r: Result<
    T,
    ExtractionError,
>)
    ensures
        extraction_outcome(r) == payload_spec::<T>(document_outcome(document)),
{
    match document {
        Ok(value) => match T::parse_from_json(value) {
            Ok(parsed) => Ok(parsed),
            Err(error) => Err(ExtractionError::Parse { error }),
        },
        Err(reason) => Err(ExtractionError::MalformedPayload { reason }),
    }
}

/// The typed value that the bytes of a body hold.
pub fn from_json_bytes<T: ParseFromJSON>(bytes: &[u8]) -> (r: Result<T, ExtractionError>)
    ensures
        extraction_outcome(r) == payload_spec::<T>(json_document(bytes@)),
{
    from_document::<T>(parse_document(bytes))
}

/// Takes the body out of `body` and extracts a `T` from it. The handle is
/// empty afterwards, whatever the outcome; on an empty handle the extraction
/// fails and reads nothing.
pub fn from_json_body<T: ParseFromJSON>(body: &mut RequestBody<Vec<u8>>) -> (r: Result<
    T,
    ExtractionError,
>)
    ensures
        (body_bytes(*final(body)), extraction_outcome(r)) == body_spec::<T>(body_bytes(*old(body))),
{
    match body.take() {
        Ok(bytes) => from_json_bytes::<T>(bytes.as_slice()),
        Err(error) => Err(error),
    }
}

/// A second extraction from the same body handle fails with
/// `BodyAlreadyConsumed`, whatever the first one read and however it ended.
pub proof fn lemma_second_extraction_fails<T: ParseFromJSON, U: ParseFromJSON>(
    content: Option<Seq<u8>>,
)
    ensures
        body_spec::<U>(body_spec::<T>(content).0).1 == Err::<U::V, _>(
            ExtractionFailure::BodyAlreadyConsumed,
        ),
        body_spec::<U>(body_spec::<T>(content).0).0 == None::<Seq<u8>>,
{
}

} // verus!
