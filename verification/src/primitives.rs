//! The contracts of the primitive shapes: integers, booleans and strings.

use crate::error::{ParseError, ParseFailure};
use crate::json::{JsonData, JsonNumber, JsonValue, NumberData};
use crate::registry::{MetaSchema, MetaSchemaRef, Registry, SchemaConflict, SchemaData, SchemaRefData};
use crate::types::{ParseFromJSON, ToJSON, Type};
use vstd::prelude::*;

verus! {

/// What parsing `value` as an integer between `min` and `max` yields, for
/// the type with the canonical name `name`.
pub open spec fn integer_spec(value: JsonData, name: Seq<char>, min: int, max: int) -> Result<
    int,
    ParseFailure,
> {
    match value {
        JsonData::Number(NumberData::Int(n)) => if min <= n <= max {
            Ok(n)
        } else {
            Err(ParseFailure::out_of_range())
        },
        JsonData::Number(NumberData::Float(_)) => Err(ParseFailure::not_an_integer()),
        _ => Err(ParseFailure::TypeMismatch { expected: name, found: value.kind() }),
    }
}

/// Reads an integer between `min` and `max` from `value`.
pub fn parse_integer(value: JsonValue, name: String, min: i64, max: i64) -> (r: Result<
    i64,
    ParseError,
>)
    ensures
        match r {
            Ok(n) => integer_spec(value@, name@, min as int, max as int) == Ok::<int, ParseFailure>(
                n as int,
            ),
            Err(error) => integer_spec(value@, name@, min as int, max as int) == Err::<
                int,
                ParseFailure,
            >(error@),
        },
{
    match value {
        JsonValue::Number(JsonNumber::PosInt(u)) => {
            if max >= 0 && u <= max as u64 && (min <= 0 || u >= min as u64) {
                Ok(u as i64)
            } else {
                Err(ParseError::out_of_range())
            }
        },
        JsonValue::Number(JsonNumber::NegInt(i)) => {
            if min <= i && i <= max {
                Ok(i)
            } else {
                Err(ParseError::out_of_range())
            }
        },
        JsonValue::Number(JsonNumber::Float(_)) => Err(ParseError::not_an_integer()),
        other => Err(ParseError::expected_type(name, &other)),
    }
}

/// The JSON number that holds `n`.
pub fn integer_to_json(n: i64) -> (r: JsonValue)
    ensures
        r@ == JsonData::Number(NumberData::Int(n as int)),
{
    if n >= 0 {
        JsonValue::Number(JsonNumber::PosInt(n as u64))
    } else {
        JsonValue::Number(JsonNumber::NegInt(n))
    }
}

impl Type for i32 {
    open spec fn spec_name() -> Seq<char> {
        "integer(int32)"@
    }

    open spec fn spec_schema_ref() -> SchemaRefData {
        SchemaRefData::Inline(
            Box::new(SchemaData { format: Some("int32"@), ..SchemaData::new("integer"@) }),
        )
    }

    open spec fn spec_definitions() -> Seq<(Seq<char>, SchemaData)> {
        Seq::empty()
    }

    fn name() -> (r: String) {
        "integer(int32)".to_owned()
    }

    fn schema_ref() -> (r: MetaSchemaRef) {
        MetaSchemaRef::Inline(Box::new(MetaSchema::new_with_format("integer", "int32")))
    }

    fn register(_registry: &mut Registry) -> (r: Result<(), SchemaConflict>) {
        Ok(())
    }
}

impl ParseFromJSON for i32 {
    open spec fn parse_spec(value: JsonData) -> Result<i32, ParseFailure> {
        match integer_spec(value, Self::spec_name(), i32::MIN as int, i32::MAX as int) {
            Ok(n) => Ok(n as i32),
            Err(failure) => Err(failure),
        }
    }

    fn parse_from_json(value: JsonValue) -> (r: Result<Self, ParseError>) {
        match parse_integer(value, Self::name(), i32::MIN as i64, i32::MAX as i64) {
            Ok(n) => Ok(n as i32),
            Err(error) => Err(error),
        }
    }
}

impl ToJSON for i32 {
    open spec fn to_json_spec(value: i32) -> JsonData {
        JsonData::Number(NumberData::Int(value as int))
    }

    fn to_json(&self) -> (r: JsonValue) {
        integer_to_json(*self as i64)
    }
}

impl Type for i64 {
    open spec fn spec_name() -> Seq<char> {
        "integer(int64)"@
    }

    open spec fn spec_schema_ref() -> SchemaRefData {
        SchemaRefData::Inline(
            Box::new(SchemaData { format: Some("int64"@), ..SchemaData::new("integer"@) }),
        )
    }

    open spec fn spec_definitions() -> Seq<(Seq<char>, SchemaData)> {
        Seq::empty()
    }

    fn name() -> (r: String) {
        "integer(int64)".to_owned()
    }

    fn schema_ref() -> (r: MetaSchemaRef) {
        MetaSchemaRef::Inline(Box::new(MetaSchema::new_with_format("integer", "int64")))
    }

    fn register(_registry: &mut Registry) -> (r: Result<(), SchemaConflict>) {
        Ok(())
    }
}

impl ParseFromJSON for i64 {
    open spec fn parse_spec(value: JsonData) -> Result<i64, ParseFailure> {
        match integer_spec(value, Self::spec_name(), i64::MIN as int, i64::MAX as int) {
            Ok(n) => Ok(n as i64),
            Err(failure) => Err(failure),
        }
    }

    fn parse_from_json(value: JsonValue) -> (r: Result<Self, ParseError>) {
        parse_integer(value, Self::name(), i64::MIN, i64::MAX)
    }
}

impl ToJSON for i64 {
    open spec fn to_json_spec(value: i64) -> JsonData {
        JsonData::Number(NumberData::Int(value as int))
    }

    fn to_json(&self) -> (r: JsonValue) {
        integer_to_json(*self)
    }
}

impl Type for bool {
    open spec fn spec_name() -> Seq<char> {
        "boolean"@
    }

    open spec fn spec_schema_ref() -> SchemaRefData {
        SchemaRefData::Inline(Box::new(SchemaData::new("boolean"@)))
    }

    open spec fn spec_definitions() -> Seq<(Seq<char>, SchemaData)> {
        Seq::empty()
    }

    fn name() -> (r: String) {
        "boolean".to_owned()
    }

    fn schema_ref() -> (r: MetaSchemaRef) {
        MetaSchemaRef::Inline(Box::new(MetaSchema::new("boolean")))
    }

    fn register(_registry: &mut Registry) -> (r: Result<(), SchemaConflict>) {
        Ok(())
    }
}

impl ParseFromJSON for bool {
    open spec fn parse_spec(value: JsonData) -> Result<bool, ParseFailure> {
        match value {
            JsonData::Bool(b) => Ok(b),
            _ => Err(
                ParseFailure::TypeMismatch { expected: Self::spec_name(), found: value.kind() },
            ),
        }
    }

    fn parse_from_json(value: JsonValue) -> (r: Result<Self, ParseError>) {
        match value {
            JsonValue::Bool(b) => Ok(b),
            other => Err(ParseError::expected_type(Self::name(), &other)),
        }
    }
}

impl ToJSON for bool {
    open spec fn to_json_spec(value: bool) -> JsonData {
        JsonData::Bool(value)
    }

    fn to_json(&self) -> (r: JsonValue) {
        JsonValue::Bool(*self)
    }
}

impl Type for String {
    open spec fn spec_name() -> Seq<char> {
        "string"@
    }

    open spec fn spec_schema_ref() -> SchemaRefData {
        SchemaRefData::Inline(Box::new(SchemaData::new("string"@)))
    }

    open spec fn spec_definitions() -> Seq<(Seq<char>, SchemaData)> {
        Seq::empty()
    }

    fn name() -> (r: String) {
        "string".to_owned()
    }

    fn schema_ref() -> (r: MetaSchemaRef) {
        MetaSchemaRef::Inline(Box::new(MetaSchema::new("string")))
    }

    fn register(_registry: &mut Registry) -> (r: Result<(), SchemaConflict>) {
        Ok(())
    }
}

impl ParseFromJSON for String {
    open spec fn parse_spec(value: JsonData) -> Result<Seq<char>, ParseFailure> {
        match value {
            JsonData::String(text) => Ok(text),
            _ => Err(
                ParseFailure::TypeMismatch { expected: Self::spec_name(), found: value.kind() },
            ),
        }
    }

    fn parse_from_json(value: JsonValue) -> (r: Result<Self, ParseError>) {
        match value {
            JsonValue::String(text) => Ok(text),
            other => Err(ParseError::expected_type(Self::name(), &other)),
        }
    }
}

impl ToJSON for String {
    open spec fn to_json_spec(value: Seq<char>) -> JsonData {
        JsonData::String(value)
    }

    fn to_json(&self) -> (r: JsonValue) {
        JsonValue::String(self.clone())
    }
}

/// A primitive value that is written as JSON and read back is the value that
/// was written.
pub proof fn lemma_primitives_round_trip()
    ensures
        forall|value: i32| #[trigger]
            i32::parse_spec(i32::to_json_spec(value)) == Ok::<i32, ParseFailure>(value),
        forall|value: i64| #[trigger]
            i64::parse_spec(i64::to_json_spec(value)) == Ok::<i64, ParseFailure>(value),
        forall|value: bool| #[trigger]
            bool::parse_spec(bool::to_json_spec(value)) == Ok::<bool, ParseFailure>(value),
        forall|value: Seq<char>| #[trigger]
            String::parse_spec(String::to_json_spec(value)) == Ok::<Seq<char>, ParseFailure>(value),
{
}

} // verus!
