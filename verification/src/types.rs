//! The contracts that every describable value meets: a canonical name and a
//! schema, and the conversion from and to JSON.

use crate::error::{ParseError, ParseFailure};
use crate::json::{JsonData, JsonValue};
use crate::registry::{
    conflicts, registered, MetaSchemaRef, Registry, SchemaConflict, SchemaData, SchemaRefData,
};
use vstd::prelude::*;

verus! {

/// The name of the first of `definitions` that `entries` refuses, where they
/// are registered one after the other; `None` where all are accepted.
pub open spec fn first_conflict(
    entries: Map<Seq<char>, SchemaData>,
    definitions: Seq<(Seq<char>, SchemaData)>,
) -> Option<Seq<char>>
    decreases definitions.len(),
{
    if definitions.len() == 0 {
        None
    } else if conflicts(entries, definitions[0].0, definitions[0].1) {
        Some(definitions[0].0)
    } else {
        first_conflict(
            registered(entries, definitions[0].0, definitions[0].1),
            definitions.drop_first(),
        )
    }
}

/// The entries after `definitions` were registered one after the other, up to
/// the first that is refused.
pub open spec fn registered_all(
    entries: Map<Seq<char>, SchemaData>,
    definitions: Seq<(Seq<char>, SchemaData)>,
) -> Map<Seq<char>, SchemaData>
    decreases definitions.len(),
{
    if definitions.len() == 0 {
        entries
    } else if conflicts(entries, definitions[0].0, definitions[0].1) {
        entries
    } else {
        registered_all(
            registered(entries, definitions[0].0, definitions[0].1),
            definitions.drop_first(),
        )
    }
}

/// Whether `entries` holds each of `definitions` under its name.
pub open spec fn holds_all(
    entries: Map<Seq<char>, SchemaData>,
    definitions: Seq<(Seq<char>, SchemaData)>,
) -> bool {
    forall|i: int|
        0 <= i < definitions.len() ==> entries.contains_key((#[trigger] definitions[i]).0)
            && entries[definitions[i].0] == definitions[i].1
}

/// Registering keeps the entry that `name` had.
proof fn lemma_registered_all_keeps(
    entries: Map<Seq<char>, SchemaData>,
    definitions: Seq<(Seq<char>, SchemaData)>,
    name: Seq<char>,
)
    requires
        entries.contains_key(name),
    ensures
        registered_all(entries, definitions).contains_key(name),
        registered_all(entries, definitions)[name] == entries[name],
    decreases definitions.len(),
{
    if definitions.len() != 0 && !conflicts(entries, definitions[0].0, definitions[0].1) {
        lemma_registered_all_keeps(
            registered(entries, definitions[0].0, definitions[0].1),
            definitions.drop_first(),
            name,
        );
    }
}

/// Definitions that were all accepted are all held afterwards.
pub proof fn lemma_registered_all_holds(
    entries: Map<Seq<char>, SchemaData>,
    definitions: Seq<(Seq<char>, SchemaData)>,
)
    requires
        first_conflict(entries, definitions) is None,
    ensures
        holds_all(registered_all(entries, definitions), definitions),
    decreases definitions.len(),
{
    if definitions.len() != 0 {
        let next = registered(entries, definitions[0].0, definitions[0].1);
        let rest = definitions.drop_first();
        lemma_registered_all_holds(next, rest);
        assert forall|i: int| 0 <= i < definitions.len() implies registered_all(
            entries,
            definitions,
        ).contains_key((#[trigger] definitions[i]).0) && registered_all(
            entries,
            definitions,
        )[definitions[i].0] == definitions[i].1 by {
            if i > 0 {
                assert(rest[i - 1] == definitions[i]);
            } else {
                lemma_registered_all_keeps(next, rest, definitions[0].0);
            }
        }
    }
}

/// Definitions that the entries hold already are accepted and change nothing.
proof fn lemma_held_definitions_change_nothing(
    entries: Map<Seq<char>, SchemaData>,
    definitions: Seq<(Seq<char>, SchemaData)>,
)
    requires
        holds_all(entries, definitions),
    ensures
        first_conflict(entries, definitions) is None,
        registered_all(entries, definitions) == entries,
    decreases definitions.len(),
{
    if definitions.len() != 0 {
        let rest = definitions.drop_first();
        assert(entries.contains_key(definitions[0].0));
        assert forall|i: int| 0 <= i < rest.len() implies entries.contains_key(
            (#[trigger] rest[i]).0,
        ) && entries[rest[i].0] == rest[i].1 by {
            assert(rest[i] == definitions[i + 1]);
        }
        lemma_held_definitions_change_nothing(entries, rest);
    }
}

/// Registering a shape a second time is accepted and changes nothing: after
/// one registration that met no conflict, the registry holds each of the
/// shape's schemas once, and a second registration leaves it as it is.
pub proof fn lemma_register_all_twice(
    entries: Map<Seq<char>, SchemaData>,
    definitions: Seq<(Seq<char>, SchemaData)>,
)
    requires
        first_conflict(entries, definitions) is None,
    ensures
        holds_all(registered_all(entries, definitions), definitions),
        first_conflict(registered_all(entries, definitions), definitions) is None,
        registered_all(registered_all(entries, definitions), definitions) == registered_all(
            entries,
            definitions,
        ),
{
    lemma_registered_all_holds(entries, definitions);
    lemma_held_definitions_change_nothing(registered_all(entries, definitions), definitions);
}

/// A shape with a stable identity and a schema.
pub trait Type: Sized {
    /// The canonical name of the shape.
    spec fn spec_name() -> Seq<char>;

    /// The schema of the shape at a point of use.
    spec fn spec_schema_ref() -> SchemaRefData;

    /// The named schemas that the shape and the shapes nested in it bring to
    /// a registry, in the order in which they are registered.
    spec fn spec_definitions() -> Seq<(Seq<char>, SchemaData)>;

    /// The canonical name: the same on every call.
    fn name() -> (r: String)
        ensures
            r@ == Self::spec_name(),
    ;

    /// The schema at a point of use: written out in place, or a reference by
    /// name.
    fn schema_ref() -> (r: MetaSchemaRef)
        ensures
            r@ == Self::spec_schema_ref(),
    ;

    /// Brings the named schemas of this shape and of the shapes nested in it
    /// into `registry`, one after the other. Where the registry accepts them
    /// all it holds each of them afterwards. It stops at the first that the
    /// registry refuses and reports the name of that one.
    fn register(registry: &mut Registry) -> (r: Result<(), SchemaConflict>)
        ensures
            final(registry)@ == registered_all(old(registry)@, Self::spec_definitions()),
            r is Ok <==> first_conflict(old(registry)@, Self::spec_definitions()) is None,
            r matches Err(conflict) ==> first_conflict(old(registry)@, Self::spec_definitions())
                == Some(conflict.name@),
            r is Ok ==> holds_all(final(registry)@, Self::spec_definitions()),
    ;
}

/// The model of the outcome of a parse.
pub open spec fn parse_outcome<T: DeepView>(r: Result<T, ParseError>) -> Result<T::V, ParseFailure> {
    match r {
        Ok(value) => Ok(value.deep_view()),
        Err(error) => Err(error@),
    }
}

/// A shape whose values can be read from JSON.
pub trait ParseFromJSON: Type + DeepView {
    /// What parsing `value` yields.
    spec fn parse_spec(value: JsonData) -> Result<Self::V, ParseFailure>;

    /// Reads a value of this shape from `value`, or says why `value` does not
    /// hold one.
    fn parse_from_json(value: JsonValue) -> (r: Result<Self, ParseError>)
        ensures
            parse_outcome(r) == Self::parse_spec(value@),
    ;
}

/// A shape whose values can be written as JSON.
pub trait ToJSON: Type + DeepView {
    /// The JSON encoding of `value`.
    spec fn to_json_spec(value: Self::V) -> JsonData;

    /// Writes this value as JSON. Every value has an encoding.
    fn to_json(&self) -> (r: JsonValue)
        ensures
            r@ == Self::to_json_spec(self.deep_view()),
    ;
}

} // verus!
