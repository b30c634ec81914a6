//! A minimal HTTP/1.1 message engine: it parses the bytes of a connection
//! into a request, finds the handler registered for the request's path and
//! writes the handler's response, or a not-found response, as bytes.
//!
//! One request is handled per connection, in memory and in one go. Reading
//! from the connection and writing to it are left to the caller.

pub mod controllers;
pub mod decimal;
pub mod encoding;
pub mod error;
pub mod http_date;
pub mod registry;
pub mod request;
pub mod response;
pub mod string_map;
pub mod text;

use vstd::prelude::*;

use crate::error::Error;
use crate::http_date::HTTP_DATE_LIMIT;
use crate::registry::Registry;
use crate::request::{parse_request, Request};
use crate::response::{not_found_response, response_bytes, Response};

verus! {

/// `response` answers a request for `path`: it is what the handler
/// registered for the path may return or, where none is registered, the
/// canonical not-found response made at the instant `now`.
pub open spec fn answers<H: Fn() -> Response>(
    registry: &Registry<H>,
    path: Seq<char>,
    now: int,
    response: Response,
) -> bool {
    match registry.resolve(path) {
        Some(handler) => call_ensures(handler, (), response),
        None => response@ == not_found_response(now),
    }
}

/// Answers a request for `path`: calls the handler registered for it or,
/// where there is none, makes the canonical not-found response. `now` is the
/// current time in seconds since the Unix epoch.
pub fn dispatch<H: Fn() -> Response>(
    registry: &Registry<H>,
    path: &str,
    now: u64,
) -> (response: Response)
    requires
        now < HTTP_DATE_LIMIT,
    ensures
        answers(registry, path@, now as int, response),
{
    match registry.get(path) {
        Some(handler) => handler(),
        None => Response::builder()._404(now).build().unwrap(),
    }
}

/// Handles one connection: parses the request that `input` holds, answers it
/// and gives the bytes to write back. A request that does not parse is not
/// answered, and the error says why. `now` is the current time in seconds
/// since the Unix epoch.
pub fn handle_client<H: Fn() -> Response>(
    input: &[u8],
    registry: &Registry<H>,
    now: u64,
) -> (result: Result<Vec<u8>, Error>)
    requires
        now < HTTP_DATE_LIMIT,
    ensures
        match parse_request(input@) {
            Ok(request) => result matches Ok(bytes) && exists|response: Response|
                #[trigger] answers(registry, request.request_line.path, now as int, response)
                    && bytes@ == response_bytes(response@),
            Err(e) => result == Err::<Vec<u8>, Error>(e),
        },
{
    let request = match Request::parse_from_bytes(input) {
        Ok(request) => request,
        Err(e) => {
            return Err(e);
        },
    };
    let path = request.get_path();
    let response = dispatch(registry, path.as_str(), now);
    Ok(response.as_bytes())
}

} // verus!
