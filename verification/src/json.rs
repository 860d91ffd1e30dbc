//! A generic JSON value and its mathematical model.

use vstd::prelude::*;

verus! {

/// The runtime kind of a JSON value.
#[derive(Clone, Copy, Debug, PartialEq, Eq, Structural)]
pub enum JsonKind {
    Null,
    Bool,
    Number,
    String,
    Array,
    Object,
}

/// A JSON number: a non-negative integer, a negative integer, or the decimal
/// text of a number that is not an integer. Two numbers are the same where
/// they hold the same integer or the same text.
#[derive(Debug)]
pub enum JsonNumber {
    PosInt(u64),
    NegInt(i64),
    Float(String),
}

/// The model of a [`JsonNumber`].
pub enum NumberData {
    Int(int),
    Float(Seq<char>),
}

/// A generic JSON value. The members of an object keep the order in which
/// they were given.
#[derive(Debug)]
pub enum JsonValue {
    Null,
    Bool(bool),
    Number(JsonNumber),
    String(String),
    Array(Vec<JsonValue>),
    Object(Vec<JsonMember>),
}

/// A member of a JSON object: a name and the value under it.
#[derive(Debug)]
pub struct JsonMember {
    pub name: String,
    pub value: JsonValue,
}

/// The model of a [`JsonMember`].
pub struct MemberData {
    pub name: Seq<char>,
    pub value: JsonData,
}

/// The model of a [`JsonValue`]: the same tree over sequences.
pub enum JsonData {
    Null,
    Bool(bool),
    Number(NumberData),
    String(Seq<char>),
    Array(Seq<JsonData>),
    Object(Seq<MemberData>),
}

impl View for JsonNumber {
    type V = NumberData;

    open spec fn view(&self) -> NumberData {
        match *self {
            JsonNumber::PosInt(u) => NumberData::Int(u as int),
            JsonNumber::NegInt(i) => NumberData::Int(i as int),
            JsonNumber::Float(text) => NumberData::Float(text@),
        }
    }
}

impl View for JsonValue {
    type V = JsonData;

    open spec fn view(&self) -> JsonData
        decreases self,
    {
        match self {
            JsonValue::Null => JsonData::Null,
            JsonValue::Bool(b) => JsonData::Bool(*b),
            JsonValue::Number(n) => JsonData::Number(n@),
            JsonValue::String(s) => JsonData::String(s@),
            JsonValue::Array(items) => JsonData::Array(
                Seq::new(
                    items@.len(),
                    |i: int|
                        if 0 <= i < items@.len() {
                            items[i]@
                        } else {
                            JsonData::Null
                        },
                ),
            ),
            JsonValue::Object(members) => JsonData::Object(
                Seq::new(
                    members@.len(),
                    |i: int|
                        if 0 <= i < members@.len() {
                            MemberData { name: members[i].name@, value: members[i].value@ }
                        } else {
                            MemberData { name: Seq::empty(), value: JsonData::Null }
                        },
                ),
            ),
        }
    }
}

impl JsonNumber {
    /// Whether the two are the same number.
    pub fn same_as(&self, other: &JsonNumber) -> (r: bool)
        ensures
            r == (self@ == other@),
    {
        match (self, other) {
            (JsonNumber::Float(a), JsonNumber::Float(b)) => *a == *b,
            (JsonNumber::Float(_), _) => false,
            (_, JsonNumber::Float(_)) => false,
            (JsonNumber::PosInt(a), JsonNumber::PosInt(b)) => *a == *b,
            (JsonNumber::NegInt(a), JsonNumber::NegInt(b)) => *a == *b,
            (JsonNumber::PosInt(a), JsonNumber::NegInt(b)) => *b >= 0 && *a == *b as u64,
            (JsonNumber::NegInt(a), JsonNumber::PosInt(b)) => *a >= 0 && *a as u64 == *b,
        }
    }
}

impl JsonValue {
    /// Whether the two are the same value: the same tree, with the members of
    /// objects in the same order.
    pub fn same_as(&self, other: &JsonValue) -> (r: bool)
        ensures
            r == (self@ == other@),
        decreases self,
    {
        match (self, other) {
            (JsonValue::Null, JsonValue::Null) => true,
            (JsonValue::Bool(a), JsonValue::Bool(b)) => *a == *b,
            (JsonValue::Number(a), JsonValue::Number(b)) => a.same_as(b),
            (JsonValue::String(a), JsonValue::String(b)) => *a == *b,
            (JsonValue::Array(a), JsonValue::Array(b)) => {
                if a.len() != b.len() {
                    assert(self@->Array_0.len() != other@->Array_0.len());
                    return false;
                }
                let mut i: usize = 0;
                while i < a.len()
                    invariant
                        0 <= i <= a@.len(),
                        a@.len() == b@.len(),
                        *self == JsonValue::Array(*a),
                        *other == JsonValue::Array(*b),
                        forall|j: int| 0 <= j < i ==> a@[j]@ == b@[j]@,
                    decreases a@.len() - i,
                {
                    if !a[i].same_as(&b[i]) {
                        assert(self@->Array_0[i as int] != other@->Array_0[i as int]);
                        return false;
                    }
                    i += 1;
                }
                assert(self@->Array_0 =~= other@->Array_0);
                true
            },
            (JsonValue::Object(a), JsonValue::Object(b)) => {
                if a.len() != b.len() {
                    assert(self@->Object_0.len() != other@->Object_0.len());
                    return false;
                }
                let mut i: usize = 0;
                while i < a.len()
                    invariant
                        0 <= i <= a@.len(),
                        a@.len() == b@.len(),
                        *self == JsonValue::Object(*a),
                        *other == JsonValue::Object(*b),
                        forall|j: int|
                            0 <= j < i ==> a@[j].name@ == b@[j].name@ && a@[j].value@
                                == b@[j].value@,
                    decreases a@.len() - i,
                {
                    if !(a[i].name == b[i].name && a[i].value.same_as(&b[i].value)) {
                        assert(self@->Object_0[i as int] != other@->Object_0[i as int]);
                        return false;
                    }
                    i += 1;
                }
                assert(self@->Object_0 =~= other@->Object_0);
                true
            },
            _ => false,
        }
    }

    /// The kind of this value.
    pub fn kind(&self) -> (k: JsonKind)
        ensures
            k == self@.kind(),
    {
        match self {
            JsonValue::Null => JsonKind::Null,
            JsonValue::Bool(_) => JsonKind::Bool,
            JsonValue::Number(_) => JsonKind::Number,
            JsonValue::String(_) => JsonKind::String,
            JsonValue::Array(_) => JsonKind::Array,
            JsonValue::Object(_) => JsonKind::Object,
        }
    }
}

impl JsonData {
    /// The kind of this value.
    pub open spec fn kind(self) -> JsonKind {
        match self {
            JsonData::Null => JsonKind::Null,
            JsonData::Bool(_) => JsonKind::Bool,
            JsonData::Number(_) => JsonKind::Number,
            JsonData::String(_) => JsonKind::String,
            JsonData::Array(_) => JsonKind::Array,
            JsonData::Object(_) => JsonKind::Object,
        }
    }
}

impl PartialEq for JsonValue {
    fn eq(&self, other: &JsonValue) -> (r: bool) {
        self.same_as(other)
    }
}

impl vstd::std_specs::cmp::PartialEqSpecImpl for JsonValue {
    open spec fn obeys_eq_spec() -> bool {
        true
    }

    open spec fn eq_spec(&self, other: &JsonValue) -> bool {
        self@ == other@
    }
}

} // verus!
