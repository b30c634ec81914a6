//! The failures that parsing a request or building a response can end in.

use vstd::prelude::*;

verus! {

/// Why a request could not be parsed or a response could not be built.
///
/// Every failure concerns one connection only; nothing is retried.
#[derive(Debug, PartialEq, Eq)]
pub enum Error {
    /// The request line has fewer than three space-separated tokens.
    MalformedRequestLine,
    /// The method token names none of the supported verbs.
    UnknownMethod,
    /// The input ends before the announced number of body bytes.
    TruncatedBody,
    /// A query or body parameter is not of the form `key=value`.
    MalformedQueryOrBodyParam,
    /// A response was built without a status line.
    MissingStatusLine,
    /// A response was built without any header.
    MissingHeaders,
    /// A response was built without the named required header.
    MissingRequiredHeader(&'static str),
}

} // verus!
