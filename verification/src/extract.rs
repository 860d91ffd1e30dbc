//! Extraction of typed values from the parts of a request: the errors, and
//! the handle that guards the body.

use crate::error::{ParseError, ParseFailure};
use vstd::prelude::*;

verus! {

/// The error of `typed_headers` for a header that is present and does not
/// decode. Nothing is known of what it holds.
#[verifier::external_type_specification]
#[verifier::external_body]
pub struct ExHeaderError(typed_headers::Error);

/// Why a typed value could not be taken from a request.
#[derive(Debug)]
pub enum ExtractionError {
    /// The request has no header of this name.
    HeaderRequired { name: String },
    /// The header is present; its decoder refused it with `cause`.
    HeaderMalformed { cause: typed_headers::Error },
    /// The body was taken before.
    BodyAlreadyConsumed,
    /// The body is not a JSON document; `reason` is what the decoder said.
    MalformedPayload { reason: String },
    /// The body is a JSON document that does not hold a value of the type.
    Parse { error: ParseError },
}

/// The model of an [`ExtractionError`].
pub enum ExtractionFailure {
    HeaderRequired { name: Seq<char> },
    HeaderMalformed { cause: typed_headers::Error },
    BodyAlreadyConsumed,
    MalformedPayload { reason: Seq<char> },
    Parse { failure: ParseFailure },
}

impl View for ExtractionError {
    type V = ExtractionFailure;

    open spec fn view(&self) -> ExtractionFailure {
        match self {
            ExtractionError::HeaderRequired { name } => ExtractionFailure::HeaderRequired {
                name: name@,
            },
            ExtractionError::HeaderMalformed { cause } => ExtractionFailure::HeaderMalformed {
                cause: *cause,
            },
            ExtractionError::BodyAlreadyConsumed => ExtractionFailure::BodyAlreadyConsumed,
            ExtractionError::MalformedPayload { reason } => ExtractionFailure::MalformedPayload {
                reason: reason@,
            },
            ExtractionError::Parse { error } => ExtractionFailure::Parse { failure: error@ },
        }
    }
}

/// The handle on the body of a request. The body can be taken once; after
/// that the handle is empty and stays so.
pub struct RequestBody<B> {
    content: Option<B>,
}

impl<B> RequestBody<B> {
    /// The body that is still to be taken, if any.
    pub closed spec fn content(self) -> Option<B> {
        self.content
    }

    /// The handle on a body that nobody has taken.
    pub fn new(content: B) -> (r: RequestBody<B>)
        ensures
            r.content() == Some(content),
    {
        RequestBody { content: Some(content) }
    }

    /// Whether the body was taken.
    pub fn is_consumed(&self) -> (r: bool)
        ensures
            r == self.content().is_none(),
    {
        self.content.is_none()
    }

    /// Takes the body out of the handle. A second call finds the handle empty
    /// and fails.
    pub fn take(&mut self) -> (r: Result<B, ExtractionError>)
        ensures
            final(self).content().is_none(),
            match old(self).content() {
                Some(content) => r == Ok::<B, ExtractionError>(content),
                None => r matches Err(ExtractionError::BodyAlreadyConsumed),
            },
    {
        match self.content.take() {
            Some(content) => Ok(content),
            None => Err(ExtractionError::BodyAlreadyConsumed),
        }
    }
}

} // verus!
