//! Verified core of a small puzzle web service.
//!
//! Each HTTP route of the service is backed by a pure handler here: a
//! greeting, a diagnostic error route, a XOR-and-cube computation over
//! numbers taken from the request path, and two aggregations over lists
//! of reindeer records posted as JSON. The handlers, the decimal and
//! JSON text they produce, and the parsing of their inputs are all
//! verified; the HTTP server around them lives outside this crate.

pub mod decimal;
pub mod handlers;
pub mod json;
pub mod parse;
pub mod reindeer;
pub mod split;

use vstd::prelude::*;

verus! {

/// Status a handler can fail with; the server maps each variant to the
/// HTTP status code of the same name.
#[derive(Clone, Copy, Debug, PartialEq, Eq, Structural)]
pub enum HttpError {
    BadRequest,
    InternalServerError,
}

} // verus!
