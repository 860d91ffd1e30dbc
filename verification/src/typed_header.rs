//! A typed header value taken from the headers of a request.

use crate::extract::ExtractionError;
use std::ops::{Deref, DerefMut};
use vstd::prelude::*;

verus! {

/// A header value decoded into the type `T`.
pub struct TypedHeader<T>(pub T);

impl<T> Deref for TypedHeader<T> {
    type Target = T;

    fn deref(&self) -> (r: &T)
        ensures
            *r == self.0,
    {
        &self.0
    }
}

impl<T> DerefMut for TypedHeader<T> {
    fn deref_mut(&mut self) -> (r: &mut T)
        ensures
            *r == old(self).0,
            final(self).0 == *final(r),
    {
        &mut self.0
    }
}

impl<T> TypedHeader<T> {
    /// Decides what the extraction of the header named `name` yields, from
    /// what the lookup of that header in the request found: the decoded
    /// value, no such header, or a header that its decoder refused.
    pub fn from_lookup(name: &str, found: Result<Option<T>, typed_headers::Error>) -> (r: Result<
        TypedHeader<T>,
        ExtractionError,
    >)
        ensures
            match found {
                Ok(Some(value)) => r == Ok::<_, ExtractionError>(TypedHeader(value)),
                Ok(None) => r matches Err(ExtractionError::HeaderRequired { name: missing })
                    && missing@ == name@,
                Err(cause) => r == Err::<TypedHeader<T>, _>(
                    ExtractionError::HeaderMalformed { cause },
                ),
            },
    {
        match found {
            Ok(Some(value)) => Ok(TypedHeader(value)),
            Ok(None) => Err(ExtractionError::HeaderRequired { name: name.to_owned() }),
            Err(cause) => Err(ExtractionError::HeaderMalformed { cause }),
        }
    }
}

} // verus!
