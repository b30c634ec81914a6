//! Responses: the status line, the header fields and the body, the builder
//! that checks them and the serializer that writes them.

pub mod status_line;

use vstd::prelude::*;
use vstd::string::*;
use vstd::utf8::encode_utf8;

use crate::error::Error;
use crate::http_date::{fmt_http_date, http_date_text, HTTP_DATE_LIMIT};
use crate::response::status_line::{status_line_text, StatusLine, StatusLineView};
use crate::string_map::{lemma_put_three, lookup, put, Entries, StringMap};

verus! {

/// The model of a response.
pub struct ResponseView {
    pub status_line: StatusLineView,
    pub headers: Entries,
    pub body: Option<Seq<char>>,
}

/// The header fields as they are written: one line for each, name and value
/// with `": "` between them, in the order of the entries.
pub open spec fn header_lines_text(headers: Entries) -> Seq<char>
    decreases headers.len(),
{
    if headers.len() == 0 {
        Seq::empty()
    } else {
        header_lines_text(headers.drop_last()) + headers.last().0 + ": "@ + headers.last().1
            + "\r\n"@
    }
}

/// A response as it is written: the status line, the header lines, an empty
/// line and the body, if there is one.
pub open spec fn response_text(response: ResponseView) -> Seq<char> {
    status_line_text(response.status_line) + "\r\n"@ + header_lines_text(response.headers)
        + "\r\n"@ + match response.body {
        Some(body) => body,
        None => Seq::empty(),
    }
}

/// The bytes of a response on the wire.
pub open spec fn response_bytes(response: ResponseView) -> Seq<u8> {
    encode_utf8(response_text(response))
}

/// The header fields that every response must have.
pub open spec fn has_required_headers(headers: Entries) -> bool {
    &&& lookup(headers, "Date"@) is Some
    &&& lookup(headers, "Content-Type"@) is Some
}

/// A response. It comes from a builder that has checked it, and is not
/// changed afterwards.
#[derive(Debug)]
pub struct Response {
    status_line: StatusLine,
    headers: StringMap,
    body: Option<String>,
}

impl View for Response {
    type V = ResponseView;

    closed spec fn view(&self) -> ResponseView {
        ResponseView {
            status_line: self.status_line@,
            headers: self.headers.entries(),
            body: match self.body {
                Some(text) => Some(text@),
                None => None,
            },
        }
    }
}

impl Response {
    /// The invariant of the type: the required header fields are there.
    #[verifier::type_invariant]
    pub closed spec fn is_checked(&self) -> bool {
        has_required_headers(self.headers.entries())
    }

    /// The status line.
    pub fn status_line(&self) -> (line: &StatusLine)
        ensures
            line@ == self@.status_line,
    {
        &self.status_line
    }

    /// The header fields. `Date` and `Content-Type` are among them.
    pub fn headers(&self) -> (headers: &StringMap)
        ensures
            headers.entries() == self@.headers,
            has_required_headers(self@.headers),
    {
        proof {
            use_type_invariant(self);
        }
        &self.headers
    }

    /// The body, if there is one.
    pub fn body(&self) -> (body: Option<&String>)
        ensures
            match body {
                Some(text) => self@.body == Some(text@),
                None => self@.body is None,
            },
    {
        self.body.as_ref()
    }

    /// The response as it is written on the wire, as text.
    pub fn as_string(&self) -> (text: String)
        ensures
            text@ == response_text(self@),
    {
        let mut text = self.status_line.as_string();
        text.append("\r\n");
        let ghost start = text@;
        let ghost headers = self.headers.entries();
        let mut i: usize = 0;
        assert(headers.take(0) =~= Entries::empty());
        while i < self.headers.len()
            invariant
                i <= headers.len(),
                headers == self.headers.entries(),
                text@ == start + header_lines_text(headers.take(i as int)),
            decreases headers.len() - i,
        {
            assert(headers.take(i + 1).drop_last() =~= headers.take(i as int));
            let ghost before = text@;
            text.append(self.headers.key_at(i).as_str());
            text.append(": ");
            text.append(self.headers.value_at(i).as_str());
            text.append("\r\n");
            i += 1;
            assert(text@ =~= start + header_lines_text(headers.take(i as int)));
        }
        assert(headers.take(i as int) =~= headers);
        text.append("\r\n");
        match &self.body {
            Some(body) => {
                text.append(body.as_str());
            },
            None => {
                assert(text@ + Seq::<char>::empty() =~= text@);
            },
        }
        text
    }

    /// The bytes of the response on the wire.
    pub fn as_bytes(&self) -> (bytes: Vec<u8>)
        ensures
            bytes@ == response_bytes(self@),
    {
        let text = self.as_string();
        text.as_str().as_bytes_vec()
    }

    /// A builder with nothing set.
    pub fn builder() -> (builder: ResponseBuilder)
        ensures
            builder@ == (ResponseBuilderView { status_line: None, headers: None, body: None }),
    {
        ResponseBuilder { status_line: None, headers: None, body: None }
    }
}

/// The model of a builder: what has been set so far.
pub struct ResponseBuilderView {
    pub status_line: Option<StatusLineView>,
    pub headers: Option<Entries>,
    pub body: Option<Seq<char>>,
}

/// What building gives. The checks are made in this order: the status line
/// is set, at least one header field is set, `Date` is set, `Content-Type` is
/// set. The first that fails decides the error.
pub open spec fn build_spec(builder: ResponseBuilderView) -> Result<ResponseView, Error> {
    match (builder.status_line, builder.headers) {
        (None, _) => Err(Error::MissingStatusLine),
        (Some(_), None) => Err(Error::MissingHeaders),
        (Some(status_line), Some(headers)) => if headers.len() == 0 {
            Err(Error::MissingHeaders)
        } else if lookup(headers, "Date"@) is None {
            Err(Error::MissingRequiredHeader("Date"))
        } else if lookup(headers, "Content-Type"@) is None {
            Err(Error::MissingRequiredHeader("Content-Type"))
        } else {
            Ok(ResponseView { status_line, headers, body: builder.body })
        },
    }
}

/// The status line of the canonical response for a path that no handler is
/// registered for.
pub open spec fn not_found_status_line() -> StatusLineView {
    StatusLineView { http_version: "HTTP/1.1"@, status_code: 404, reason_phrase: "Not Found"@ }
}

/// The header fields of the canonical not-found response made at the instant
/// `now`, in seconds since the Unix epoch.
pub open spec fn not_found_headers(now: int) -> Entries {
    seq![
        ("Date"@, http_date_text(now)),
        ("Content-Type"@, "text/html"@),
        ("Content-Length"@, "0"@),
    ]
}

/// The canonical not-found response made at the instant `now`: status 404,
/// the required header fields, a content length of zero and no body.
pub open spec fn not_found_response(now: int) -> ResponseView {
    ResponseView {
        status_line: not_found_status_line(),
        headers: not_found_headers(now),
        body: None,
    }
}

/// The header fields of the canonical not-found response are what setting
/// `Date`, `Content-Type` and `Content-Length` in turn gives, and they hold
/// what every response must have.
pub proof fn lemma_not_found_headers(now: int)
    ensures
        not_found_headers(now) == put(
            put(
                put(Entries::empty(), "Date"@, http_date_text(now)),
                "Content-Type"@,
                "text/html"@,
            ),
            "Content-Length"@,
            "0"@,
        ),
        has_required_headers(not_found_headers(now)),
{
    reveal_strlit("Date");
    reveal_strlit("Content-Type");
    reveal_strlit("Content-Length");
    assert("Date"@.len() == 4 && "Content-Type"@.len() == 12 && "Content-Length"@.len() == 14);
    lemma_put_three(
        "Date"@,
        http_date_text(now),
        "Content-Type"@,
        "text/html"@,
        "Content-Length"@,
        "0"@,
    );
}

/// A builder of responses. The status line and the header fields are set in
/// any order; `build` checks that what a response needs is there.
pub struct ResponseBuilder {
    status_line: Option<StatusLine>,
    headers: Option<StringMap>,
    body: Option<String>,
}

impl View for ResponseBuilder {
    type V = ResponseBuilderView;

    closed spec fn view(&self) -> ResponseBuilderView {
        ResponseBuilderView {
            status_line: match self.status_line {
                Some(line) => Some(line@),
                None => None,
            },
            headers: match self.headers {
                Some(map) => Some(map.entries()),
                None => None,
            },
            body: match self.body {
                Some(text) => Some(text@),
                None => None,
            },
        }
    }
}

impl ResponseBuilder {
    /// Sets the body.
    pub fn body(self, body: String) -> (builder: Self)
        ensures
            builder@ == (ResponseBuilderView { body: Some(body@), ..self@ }),
    {
        let mut builder = self;
        builder.body = Some(body);
        builder
    }

    /// Checks what has been set and makes the response of it.
    pub fn build(self) -> (result: Result<Response, Error>)
        ensures
            match result {
                Ok(response) => build_spec(self@) == Ok::<ResponseView, Error>(response@),
                Err(e) => build_spec(self@) == Err::<ResponseView, Error>(e),
            },
    {
        let status_line = match self.status_line {
            Some(line) => line,
            None => {
                return Err(Error::MissingStatusLine);
            },
        };
        let headers = match self.headers {
            Some(map) => map,
            None => {
                return Err(Error::MissingHeaders);
            },
        };
        if headers.is_empty() {
            return Err(Error::MissingHeaders);
        }
        if !headers.contains_key("Date") {
            return Err(Error::MissingRequiredHeader("Date"));
        }
        if !headers.contains_key("Content-Type") {
            return Err(Error::MissingRequiredHeader("Content-Type"));
        }
        Ok(Response { status_line, headers, body: self.body })
    }

    /// Sets the header field `name` to `value`. A value set before under the
    /// same name is replaced.
    pub fn header(self, name: &str, value: &str) -> (builder: Self)
        ensures
            builder@ == (ResponseBuilderView {
                headers: Some(
                    put(
                        match self@.headers {
                            Some(headers) => headers,
                            None => Entries::empty(),
                        },
                        name@,
                        value@,
                    ),
                ),
                ..self@
            }),
    {
        let mut headers = match self.headers {
            Some(map) => map,
            None => StringMap::new(),
        };
        headers.insert(name.to_owned(), value.to_owned());
        ResponseBuilder { status_line: self.status_line, headers: Some(headers), body: self.body }
    }

    /// Sets the status line.
    pub fn status_line(self, status_line: StatusLine) -> (builder: Self)
        ensures
            builder@ == (ResponseBuilderView { status_line: Some(status_line@), ..self@ }),
    {
        let mut builder = self;
        builder.status_line = Some(status_line);
        builder
    }

    /// Sets everything to what the canonical not-found response has, made at
    /// the instant `now`, in seconds since the Unix epoch. What was set
    /// before is dropped.
    pub fn _404(self, now: u64) -> (builder: Self)
        requires
            now < HTTP_DATE_LIMIT,
        ensures
            builder@ == (ResponseBuilderView {
                status_line: Some(not_found_status_line()),
                headers: Some(not_found_headers(now as int)),
                body: None,
            }),
            build_spec(builder@) == Ok::<ResponseView, Error>(not_found_response(now as int)),
    {
        let status_line = StatusLine::new("HTTP/1.1".to_owned(), 404, "Not Found".to_owned());
        let date = fmt_http_date(now);
        let builder = Response::builder().status_line(status_line).header(
            "Date",
            date.as_str(),
        ).header("Content-Type", "text/html").header("Content-Length", "0");
        proof {
            lemma_not_found_headers(now as int);
        }
        builder
    }
}

} // verus!
