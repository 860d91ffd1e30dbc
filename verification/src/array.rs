//! Fixed-size sequences: `[T; LEN]` as a JSON array of exactly `LEN` elements.

use crate::error::{ParseError, ParseFailure, PathSegment, PathStep};
use crate::json::{JsonData, JsonValue};
use crate::registry::{MetaSchema, MetaSchemaRef, Registry, SchemaConflict, SchemaData, SchemaRefData};
use crate::types::{parse_outcome, ParseFromJSON, ToJSON, Type};
use vstd::prelude::*;

verus! {

/// `TryFrom<Vec<T>>` of `[T; LEN]` in std: a vector of exactly `LEN` elements
/// becomes the array of those elements in the same order; any other vector
/// comes back as it was.
#[verifier::external_body]
fn vec_into_array<T, const LEN: usize>(elements: Vec<T>) -> (r: Result<[T; LEN], Vec<T>>)
    ensures
        match r {
            Ok(array) => elements@.len() == LEN && array@ == elements@,
            Err(rest) => elements@.len() != LEN && rest == elements,
        },
{
    elements.try_into()
}

/// Whether the element at `i` is the first of `items` that does not parse as
/// a `T`.
pub open spec fn fails_first_at<T: ParseFromJSON>(items: Seq<JsonData>, i: int) -> bool {
    &&& 0 <= i < items.len()
    &&& T::parse_spec(items[i]) is Err
    &&& forall|j: int| 0 <= j < i ==> T::parse_spec(items[j]) is Ok
}

/// The position of the first of `items` that does not parse as a `T`.
pub open spec fn first_failure<T: ParseFromJSON>(items: Seq<JsonData>) -> Option<int> {
    if exists|i: int| fails_first_at::<T>(items, i) {
        Some(choose|i: int| fails_first_at::<T>(items, i))
    } else {
        None
    }
}

impl<T: Type, const LEN: usize> Type for [T; LEN] {
    open spec fn spec_name() -> Seq<char> {
        seq!['['] + T::spec_name() + seq![']']
    }

    open spec fn spec_schema_ref() -> SchemaRefData {
        SchemaRefData::Inline(
            Box::new(
                SchemaData {
                    items: Some(Box::new(T::spec_schema_ref())),
                    max_length: Some(LEN as nat),
                    min_length: Some(LEN as nat),
                    ..SchemaData::new("array"@)
                },
            ),
        )
    }

    open spec fn spec_definitions() -> Seq<(Seq<char>, SchemaData)> {
        T::spec_definitions()
    }

    fn name() -> (r: String) {
        let mut name = "[".to_owned();
        let element = T::name();
        name.append(element.as_str());
        name.append("]");
        proof {
            reveal_strlit("[");
            reveal_strlit("]");
            assert(name@ =~= seq!['['] + T::spec_name() + seq![']']);
        }
        name
    }

    fn schema_ref() -> (r: MetaSchemaRef) {
        MetaSchemaRef::Inline(
            Box::new(
                MetaSchema {
                    items: Some(Box::new(T::schema_ref())),
                    max_length: Some(LEN),
                    min_length: Some(LEN),
                    ..MetaSchema::new("array")
                },
            ),
        )
    }

    fn register(registry: &mut Registry) -> (r: Result<(), SchemaConflict>) {
        T::register(registry)
    }
}

impl<T: ParseFromJSON, const LEN: usize> ParseFromJSON for [T; LEN] {
    open spec fn parse_spec(value: JsonData) -> Result<Seq<<T as DeepView>::V>, ParseFailure> {
        match value {
            JsonData::Array(items) => if items.len() != LEN {
                Err(
                    ParseFailure::LengthMismatch {
                        expected_len: LEN as nat,
                        found_len: items.len(),
                    },
                )
            } else {
                match first_failure::<T>(items) {
                    Some(i) => Err(
                        T::parse_spec(items[i])->Err_0.propagate(PathStep::Index(i as nat)),
                    ),
                    None => Ok(Seq::new(items.len(), |i: int| T::parse_spec(items[i])->Ok_0)),
                }
            },
            _ => Err(
                ParseFailure::TypeMismatch { expected: Self::spec_name(), found: value.kind() },
            ),
        }
    }

    fn parse_from_json(value: JsonValue) -> (r: Result<Self, ParseError>)
        ensures
            !(value@ is Array) ==> parse_outcome(r) == Err::<Seq<<T as DeepView>::V>, _>(
                ParseFailure::TypeMismatch { expected: Self::spec_name(), found: value@.kind() },
            ),
            value@ is Array && value@->Array_0.len() != LEN ==> parse_outcome(r) == Err::<
                Seq<<T as DeepView>::V>,
                _,
            >(
                ParseFailure::LengthMismatch {
                    expected_len: LEN as nat,
                    found_len: value@->Array_0.len(),
                },
            ),
            forall|i: int|
                value@ is Array && value@->Array_0.len() == LEN && #[trigger] fails_first_at::<T>(
                    value@->Array_0,
                    i,
                ) ==> parse_outcome(r) == Err::<Seq<<T as DeepView>::V>, _>(
                    T::parse_spec(value@->Array_0[i])->Err_0.propagate(PathStep::Index(i as nat)),
                ),
            r matches Ok(array) ==> value@ is Array && value@->Array_0.len() == LEN && forall|
                i: int,
            |
                0 <= i < LEN ==> T::parse_spec(#[trigger] value@->Array_0[i]) == Ok::<
                    _,
                    ParseFailure,
                >(array@[i].deep_view()),
    {
        proof {
            if let JsonData::Array(items) = value@ {
                assert forall|i: int| fails_first_at::<T>(items, i) implies first_failure::<T>(
                    items,
                ) == Some(i) by {
                    lemma_first_failure::<T>(items, i);
                }
            }
        }
        match value {
            JsonValue::Array(values) => {
                let ghost elements = values@;
                let ghost items = Seq::new(elements.len(), |j: int| elements[j]@);
                assert(value@ == JsonData::Array(items)) by {
                    assert(value@->Array_0 =~= items);
                }
                if values.len() != LEN {
                    return Err(ParseError::length_mismatch(LEN, values.len()));
                }
                let mut res: Vec<T> = Vec::with_capacity(values.len());
                let mut i: usize = 0;
                for item in it: values
                    invariant
                        value@ == JsonData::Array(items),
                        it.seq() == elements,
                        elements.len() == LEN,
                        items == Seq::new(elements.len(), |j: int| elements[j]@),
                        i == it.index(),
                        res@.len() == i,
                        forall|j: int|
                            0 <= j < i ==> #[trigger] T::parse_spec(items[j]) == Ok::<
                                _,
                                ParseFailure,
                            >(res@[j].deep_view()),
                {
                    assert(item@ == items[i as int]);
                    match T::parse_from_json(item) {
                        Ok(element) => {
                            res.push(element);
                        },
                        Err(error) => {
                            proof {
                                lemma_first_failure::<T>(items, i as int);
                            }
                            return Err(error.propagate(PathSegment::Index(i)));
                        },
                    }
                    i += 1;
                }
                let array: [T; LEN] = match vec_into_array(res) {
                    Ok(array) => array,
                    // Not taken: `res` holds one element for each of the `LEN` values.
                    Err(rest) => {
                        return Err(ParseError::length_mismatch(LEN, rest.len()));
                    },
                };
                proof {
                    assert(first_failure::<T>(items) is None) by {
                        if exists|k: int| fails_first_at::<T>(items, k) {
                            let k = choose|k: int| fails_first_at::<T>(items, k);
                            assert(T::parse_spec(items[k]) is Ok);
                        }
                    }
                    assert(array.deep_view() =~= Seq::new(
                        items.len(),
                        |j: int| T::parse_spec(items[j])->Ok_0,
                    ));
                }
                Ok(array)
            },
            other => Err(ParseError::expected_type(Self::name(), &other)),
        }
    }
}

/// Where the element at `i` fails and all before it parse, `i` is the first
/// failure.
proof fn lemma_first_failure<T: ParseFromJSON>(items: Seq<JsonData>, i: int)
    requires
        fails_first_at::<T>(items, i),
    ensures
        first_failure::<T>(items) == Some(i),
{
    let k = choose|k: int| fails_first_at::<T>(items, k);
    assert(fails_first_at::<T>(items, k));
    if k < i {
        assert(T::parse_spec(items[k]) is Ok);
    }
    if i < k {
        assert(T::parse_spec(items[i]) is Ok);
    }
}

impl<T: ToJSON, const LEN: usize> ToJSON for [T; LEN] {
    open spec fn to_json_spec(value: Seq<<T as DeepView>::V>) -> JsonData {
        JsonData::Array(Seq::new(value.len(), |i: int| T::to_json_spec(value[i])))
    }

    fn to_json(&self) -> (r: JsonValue)
        ensures
            r@ is Array,
            r@->Array_0.len() == LEN,
            forall|i: int|
                0 <= i < LEN ==> #[trigger] r@->Array_0[i] == T::to_json_spec(
                    self@[i].deep_view(),
                ),
    {
        let mut values: Vec<JsonValue> = Vec::with_capacity(LEN);
        let mut i: usize = 0;
        while i < LEN
            invariant
                0 <= i <= LEN,
                values@.len() == i,
                forall|j: int|
                    0 <= j < i ==> (#[trigger] values@[j])@ == T::to_json_spec(
                        self@[j].deep_view(),
                    ),
            decreases LEN - i,
        {
            values.push(self[i].to_json());
            i += 1;
        }
        let r = JsonValue::Array(values);
        assert(r@->Array_0 =~= Seq::new(
            self.deep_view().len(),
            |j: int| T::to_json_spec(self.deep_view()[j]),
        ));
        r
    }
}

/// A fixed-size sequence that is written as JSON and read back is the
/// sequence that was written, element for element and in the same order,
/// where this holds of each of its elements.
pub proof fn lemma_array_round_trip<T: ParseFromJSON + ToJSON, const LEN: usize>(
    elements: Seq<<T as DeepView>::V>,
)
    requires
        elements.len() == LEN,
        forall|i: int|
            0 <= i < LEN ==> T::parse_spec(T::to_json_spec(#[trigger] elements[i])) == Ok::<
                _,
                ParseFailure,
            >(elements[i]),
    ensures
        <[T; LEN] as ParseFromJSON>::parse_spec(<[T; LEN] as ToJSON>::to_json_spec(elements))
            == Ok::<_, ParseFailure>(elements),
{
    let items = Seq::new(elements.len(), |i: int| T::to_json_spec(elements[i]));
    assert(first_failure::<T>(items) is None) by {
        if exists|k: int| fails_first_at::<T>(items, k) {
            let k = choose|k: int| fails_first_at::<T>(items, k);
            assert(T::parse_spec(T::to_json_spec(elements[k])) is Ok);
        }
    }
    assert(Seq::new(items.len(), |i: int| T::parse_spec(items[i])->Ok_0) =~= elements) by {
        assert forall|i: int| 0 <= i < elements.len() implies T::parse_spec(items[i])->Ok_0
            == elements[i] by {
            assert(T::parse_spec(T::to_json_spec(elements[i])) is Ok);
        }
    }
}

} // verus!
