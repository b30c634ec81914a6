//! The request methods that the server knows.

use vstd::prelude::*;

verus! {

/// A supported HTTP verb. There is no variant for an unknown one: a request
/// line with another verb does not parse.
#[derive(Debug, Clone, Copy, PartialEq, Eq, Structural)]
pub enum RequestMethod {
    Delete,
    Get,
    Head,
    Options,
    Patch,
    Post,
    Put,
}

} // verus!
