//! The date format of HTTP header fields.

use vstd::prelude::*;

verus! {

/// The first second that cannot be written as an HTTP date: the start of the
/// year 10000, in seconds since the Unix epoch.
pub const HTTP_DATE_LIMIT: u64 = 253402300800;

/// The HTTP date for the instant `secs` seconds after the Unix epoch, in the
/// fixed-length form of `Sun, 06 Nov 1994 08:49:37 GMT`.
pub uninterp spec fn http_date_text(secs: int) -> Seq<char>;

/// Writes the instant `secs` seconds after the Unix epoch as an HTTP date.
///
/// Trusted: the body calls `httpdate::fmt_http_date`, which formats a system
/// time as an IMF-fixdate and panics for a time before the epoch or from the
/// year 10000 on. The contract leaves those times out and names the result,
/// which depends on the whole seconds since the epoch alone.
#[verifier::external_body]
pub(crate) fn fmt_http_date(secs: u64) -> (text: String)
    requires
        secs < HTTP_DATE_LIMIT,
    ensures
        text@ == http_date_text(secs as int),
{
    httpdate::fmt_http_date(std::time::UNIX_EPOCH + std::time::Duration::from_secs(secs))
}

} // verus!
