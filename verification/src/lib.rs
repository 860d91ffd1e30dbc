//! Typed value contracts: schema descriptors, a schema registry, JSON
//! marshalling for typed values, and extraction of typed values from the
//! parts of a request.

pub mod array;
pub mod error;
pub mod extract;
pub mod json;
pub mod payload;
pub mod primitives;
pub mod registry;
pub mod typed_header;
pub mod types;
