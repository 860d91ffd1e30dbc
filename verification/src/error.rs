//! The error of parsing a JSON value into a typed value, and the path that it
//! gathers on its way out of nested containers.

use crate::json::{JsonKind, JsonValue};
use vstd::prelude::*;

verus! {

/// One step of the path from a container to the place where parsing failed.
#[derive(Debug)]
pub enum PathSegment {
    /// The position of an element in an array.
    Index(usize),
    /// The name of a field in a record.
    Field(String),
}

/// The model of a [`PathSegment`].
pub enum PathStep {
    Index(nat),
    Field(Seq<char>),
}

impl View for PathSegment {
    type V = PathStep;

    open spec fn view(&self) -> PathStep {
        match *self {
            PathSegment::Index(i) => PathStep::Index(i as nat),
            PathSegment::Field(name) => PathStep::Field(name@),
        }
    }
}

impl PathSegment {
    /// A copy of this segment.
    pub fn duplicate(&self) -> (r: PathSegment)
        ensures
            r@ == self@,
    {
        match self {
            PathSegment::Index(i) => PathSegment::Index(*i),
            PathSegment::Field(name) => PathSegment::Field(name.clone()),
        }
    }
}

/// Why a JSON value could not be parsed into a typed value.
#[derive(Debug)]
pub enum ParseError {
    /// The value's kind is not the kind that the type with the canonical
    /// name `expected` is encoded in.
    TypeMismatch { expected: String, found: JsonKind },
    /// An array does not have the length that a fixed-size sequence requires.
    LengthMismatch { expected_len: usize, found_len: usize },
    /// A record lacks a required field.
    MissingField { name: String },
    /// Any other failure, described by a message.
    Custom { message: String },
    /// A nested value failed; `context` says where in the container it sits.
    Propagated { context: PathSegment, cause: Box<ParseError> },
}

/// The model of a [`ParseError`].
pub enum ParseFailure {
    TypeMismatch { expected: Seq<char>, found: JsonKind },
    LengthMismatch { expected_len: nat, found_len: nat },
    MissingField { name: Seq<char> },
    Custom { message: Seq<char> },
    Propagated { context: PathStep, cause: Box<ParseFailure> },
}

impl ParseFailure {
    /// This failure as seen from the container that holds the failed value at
    /// `context`.
    pub open spec fn propagate(self, context: PathStep) -> ParseFailure {
        ParseFailure::Propagated { context, cause: Box::new(self) }
    }

    /// The failure for a number with a fraction or an exponent where an
    /// integer is required.
    pub open spec fn not_an_integer() -> ParseFailure {
        ParseFailure::Custom { message: "the number is not an integer"@ }
    }

    /// The failure for an integer outside the range of the type.
    pub open spec fn out_of_range() -> ParseFailure {
        ParseFailure::Custom { message: "the integer is out of range"@ }
    }

    /// The steps from the outermost container down to the failed value.
    pub open spec fn path(self) -> Seq<PathStep>
        decreases self,
    {
        match self {
            ParseFailure::Propagated { context, cause } => seq![context] + cause.path(),
            _ => Seq::empty(),
        }
    }

    /// The failure at the end of the path: the one that is not a propagation.
    pub open spec fn root_cause(self) -> ParseFailure
        decreases self,
    {
        match self {
            ParseFailure::Propagated { context, cause } => cause.root_cause(),
            _ => self,
        }
    }
}

impl View for ParseError {
    type V = ParseFailure;

    open spec fn view(&self) -> ParseFailure
        decreases self,
    {
        match self {
            ParseError::TypeMismatch { expected, found } => ParseFailure::TypeMismatch {
                expected: expected@,
                found: *found,
            },
            ParseError::LengthMismatch { expected_len, found_len } => ParseFailure::LengthMismatch {
                expected_len: *expected_len as nat,
                found_len: *found_len as nat,
            },
            ParseError::MissingField { name } => ParseFailure::MissingField { name: name@ },
            ParseError::Custom { message } => ParseFailure::Custom { message: message@ },
            ParseError::Propagated { context, cause } => ParseFailure::Propagated {
                context: context@,
                cause: Box::new((**cause)@),
            },
        }
    }
}

impl ParseError {
    /// The error for a value of the wrong kind, where the type named
    /// `expected` was to be parsed.
    pub fn expected_type(expected: String, actual: &JsonValue) -> (r: ParseError)
        ensures
            r@ == (ParseFailure::TypeMismatch { expected: expected@, found: actual@.kind() }),
    {
        ParseError::TypeMismatch { expected, found: actual.kind() }
    }

    /// The error for an array of `found` elements where `expected` are required.
    pub fn length_mismatch(expected: usize, found: usize) -> (r: ParseError)
        ensures
            r@ == (ParseFailure::LengthMismatch {
                expected_len: expected as nat,
                found_len: found as nat,
            }),
    {
        ParseError::LengthMismatch { expected_len: expected, found_len: found }
    }

    /// The error for a record without the field `name`.
    pub fn missing_field(name: String) -> (r: ParseError)
        ensures
            r@ == (ParseFailure::MissingField { name: name@ }),
    {
        ParseError::MissingField { name }
    }

    /// An error described by `message`.
    pub fn custom(message: String) -> (r: ParseError)
        ensures
            r@ == (ParseFailure::Custom { message: message@ }),
    {
        ParseError::Custom { message }
    }

    /// The error for a number with a fraction or an exponent where an
    /// integer is required.
    pub fn not_an_integer() -> (r: ParseError)
        ensures
            r@ == ParseFailure::not_an_integer(),
    {
        ParseError::Custom { message: "the number is not an integer".to_owned() }
    }

    /// The error for an integer outside the range of the type.
    pub fn out_of_range() -> (r: ParseError)
        ensures
            r@ == ParseFailure::out_of_range(),
    {
        ParseError::Custom { message: "the integer is out of range".to_owned() }
    }

    /// Wraps this error with the place at which the failed value sits in its
    /// container. The error itself stays inside as the cause.
    pub fn propagate(self, context: PathSegment) -> (r: ParseError)
        ensures
            r@ == self@.propagate(context@),
            r@.path() == seq![context@] + self@.path(),
            r@.root_cause() == self@.root_cause(),
    {
        ParseError::Propagated { context, cause: Box::new(self) }
    }

    /// The steps from the outermost container down to the failed value.
    pub fn path(&self) -> (r: Vec<PathSegment>)
        ensures
            r@.len() == self@.path().len(),
            forall|i: int| 0 <= i < r@.len() ==> r@[i]@ == self@.path()[i],
    {
        let mut steps: Vec<PathSegment> = Vec::new();
        let mut current: &ParseError = self;
        loop
            invariant
                steps@.len() + current@.path().len() == self@.path().len(),
                forall|i: int| 0 <= i < steps@.len() ==> steps@[i]@ == self@.path()[i],
                forall|i: int|
                    0 <= i < current@.path().len() ==> current@.path()[i] == self@.path()[
                        steps@.len() + i],
            decreases current@.path().len(),
        {
            match current {
                ParseError::Propagated { context, cause } => {
                    proof {
                        let rest = cause@.path();
                        assert(current@.path() == seq![context@] + rest);
                        assert(current@.path()[0] == context@);
                        assert forall|i: int| 0 <= i < rest.len() implies rest[i]
                            == self@.path()[steps@.len() + 1 + i] by {
                            assert(current@.path()[i + 1] == rest[i]);
                        }
                    }
                    steps.push(context.duplicate());
                    current = &**cause;
                },
                _ => {
                    return steps;
                },
            }
        }
    }

    /// The failure at the end of the path: the one that is not a propagation.
    pub fn root_cause(&self) -> (r: &ParseError)
        ensures
            r@ == self@.root_cause(),
            !(r@ is Propagated),
    {
        let mut current: &ParseError = self;
        loop
            invariant
                current@.root_cause() == self@.root_cause(),
            decreases current@.path().len(),
        {
            match current {
                ParseError::Propagated { context, cause } => {
                    current = &**cause;
                },
                _ => {
                    return current;
                },
            }
        }
    }
}

} // verus!
