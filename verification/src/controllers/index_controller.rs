//! The index page.

use vstd::prelude::*;
use vstd::string::*;
use vstd::utf8::encode_utf8;

use crate::decimal::{nat_text, push_nat};
use crate::http_date::{fmt_http_date, http_date_text, HTTP_DATE_LIMIT};
use crate::response::status_line::{
    lemma_parse_written, parse_status_line, status_line_text, StatusLine, StatusLineView,
};
use crate::response::{Response, ResponseView};
use crate::string_map::lemma_put_three;

verus! {

/// The status line of a response that succeeds.
pub open spec fn ok_status_line() -> StatusLineView {
    StatusLineView { http_version: "HTTP/1.1"@, status_code: 200, reason_phrase: "OK"@ }
}

/// The response that shows the index page `body` at the instant `now`, in
/// seconds since the Unix epoch: status 200, the date, the length of the
/// page in bytes, the content type of an HTML page, and the page.
pub open spec fn index_response(body: Seq<char>, now: int) -> ResponseView {
    ResponseView {
        status_line: ok_status_line(),
        headers: seq![
            ("Date"@, http_date_text(now)),
            ("Content-Length"@, nat_text(encode_utf8(body).len())),
            ("Content-Type"@, "text/html"@),
        ],
        body: Some(body),
    }
}

/// The text `HTTP/1.1 200 OK` is the status line of a response that
/// succeeds.
pub proof fn lemma_ok_status_line()
    ensures
        parse_status_line("HTTP/1.1 200 OK"@) == Some(ok_status_line()),
{
    reveal_strlit("HTTP/1.1 200 OK");
    reveal_strlit("HTTP/1.1");
    reveal_strlit(" ");
    reveal_strlit("OK");
    reveal_with_fuel(nat_text, 3);
    let line = ok_status_line();
    assert(nat_text(200) =~= seq!['2', '0', '0']);
    assert(status_line_text(line) =~= "HTTP/1.1 200 OK"@);
    assert forall|i: int| 0 <= i < line.http_version.len() implies line.http_version[i]
        != ' ' by {}
    lemma_parse_written(line);
}

/// The controller of the index page.
pub struct IndexController {}

impl IndexController {
    /// Answers a request for the index page with the page `body`, at the
    /// instant `now`, in seconds since the Unix epoch.
    pub fn action_index(body: String, now: u64) -> (response: Response)
        requires
            now < HTTP_DATE_LIMIT,
        ensures
            response@ == index_response(body@, now as int),
    {
        proof {
            lemma_ok_status_line();
            reveal_strlit("Date");
            reveal_strlit("Content-Type");
            reveal_strlit("Content-Length");
            assert("Date"@.len() == 4 && "Content-Type"@.len() == 12 && "Content-Length"@.len()
                == 14);
            lemma_put_three(
                "Date"@,
                http_date_text(now as int),
                "Content-Length"@,
                nat_text(encode_utf8(body@).len()),
                "Content-Type"@,
                "text/html"@,
            );
        }
        let date = fmt_http_date(now);
        let mut length = String::new();
        push_nat(&mut length, body.as_str().as_bytes().len() as u64);
        assert(length@ =~= nat_text(encode_utf8(body@).len()));
        let builder = Response::builder().status_line(StatusLine::from_str("HTTP/1.1 200 OK"))
            .header("Date", date.as_str()).header("Content-Length", length.as_str()).header(
            "Content-Type",
            "text/html",
        ).body(body);
        builder.build().unwrap()
    }
}

} // verus!
