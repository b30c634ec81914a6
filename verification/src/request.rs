//! Requests: the request line, the header fields and the body, and the
//! algorithm that reads them from the bytes of a connection.

pub mod params;
pub mod request_line;
pub mod request_method;

use vstd::prelude::*;
use vstd::slice::{slice_subrange, slice_to_vec};
use vstd::string::*;
use vstd::utf8::{decode_utf8, decode_utf8_encode_utf8, encode_utf8, valid_utf8};

use crate::decimal::{parse_unsigned, parse_usize};
use crate::encoding::{decode_lossy, lossy_text};
use crate::error::Error;
use crate::request::params::{parse_params, parse_params_spec};
use crate::request::request_line::{parse_request_line, RequestLine, RequestLineView};
use crate::string_map::{lookup, put, Entries, StringMap};
use crate::text::{split_once, split_once_str, to_chars, views};

verus! {

/// The line feed that ends a line.
pub const LF: u8 = 10;

/// The carriage return that may stand before the line feed.
pub const CR: u8 = 13;

/// The index of the first line feed at or after `from`, or the length of the
/// input if there is none.
pub open spec fn line_end(input: Seq<u8>, from: int) -> int
    decreases input.len() - from,
{
    if from < 0 || from >= input.len() {
        input.len() as int
    } else if input[from] == LF {
        from
    } else {
        line_end(input, from + 1)
    }
}

/// A line without the carriage return that ends it, if one does.
pub open spec fn strip_cr(line: Seq<u8>) -> Seq<u8> {
    if line.len() > 0 && line.last() == CR {
        line.drop_last()
    } else {
        line
    }
}

/// The head of a request as it lies in the input: the lines up to the first
/// empty one, where the bytes after it start, and whether the empty line was
/// seen at all.
pub struct HeadView {
    pub lines: Seq<Seq<u8>>,
    pub body_start: int,
    pub complete: bool,
}

/// The head that starts at index `from`. A line ends at a line feed, which
/// does not belong to it, nor does a carriage return just before the line
/// feed. The head ends with the first empty line or with the input; what is
/// left at the end of the input without a line feed is a last line.
pub open spec fn head_from(input: Seq<u8>, from: int) -> HeadView
    decreases input.len() - from,
{
    if from < 0 || from >= input.len() {
        HeadView { lines: Seq::empty(), body_start: input.len() as int, complete: false }
    } else {
        let end = line_end(input, from);
        if end >= input.len() {
            HeadView {
                lines: seq![input.subrange(from, input.len() as int)],
                body_start: input.len() as int,
                complete: false,
            }
        } else {
            let line = strip_cr(input.subrange(from, end));
            if line.len() == 0 {
                HeadView { lines: Seq::empty(), body_start: end + 1, complete: true }
            } else {
                proof {
                    lemma_line_end(input, from);
                }
                let rest = head_from(input, end + 1);
                HeadView {
                    lines: seq![line] + rest.lines,
                    body_start: rest.body_start,
                    complete: rest.complete,
                }
            }
        }
    }
}

/// The head of the whole input.
pub open spec fn head_of(input: Seq<u8>) -> HeadView {
    head_from(input, 0)
}

/// The header fields that a list of header lines gives, taken top to bottom.
/// A line is cut at its first `": "` into name and value; a line without it
/// is passed over. A name that comes again replaces the value it had.
pub open spec fn headers_of(lines: Seq<Seq<char>>) -> Entries
    decreases lines.len(),
{
    if lines.len() == 0 {
        Entries::empty()
    } else {
        let before = headers_of(lines.drop_last());
        match split_once(lines.last(), ": "@) {
            Some((name, value)) => put(before, name, value),
            None => before,
        }
    }
}

/// The number of body bytes that the header fields announce: the value of
/// `Content-Length` where it is there and reads as a `usize`, else zero.
pub open spec fn content_length_of(headers: Option<Entries>) -> int {
    match headers {
        Some(entries) => match lookup(entries, "Content-Length"@) {
            Some(value) => match parse_unsigned(value, usize::MAX as int) {
                Some(n) => n,
                None => 0,
            },
            None => 0,
        },
        None => 0,
    }
}

/// The lines of a head after its first, the request line.
pub open spec fn header_lines_of(lines: Seq<Seq<char>>) -> Seq<Seq<char>> {
    if lines.len() == 0 {
        lines
    } else {
        lines.skip(1)
    }
}

/// `None` for no entries, else the entries.
pub open spec fn some_if_any(entries: Entries) -> Option<Entries> {
    if entries.len() == 0 {
        None
    } else {
        Some(entries)
    }
}

/// The model of a request.
pub struct RequestView {
    pub request_line: RequestLineView,
    pub headers: Option<Entries>,
    pub body: Option<Seq<char>>,
}

/// The lines of the head of the input, decoded one by one.
pub open spec fn head_lines(input: Seq<u8>) -> Seq<Seq<char>> {
    head_of(input).lines.map_values(|line: Seq<u8>| lossy_text(line))
}

/// The header fields that the input holds, if it holds any.
pub open spec fn headers_in(input: Seq<u8>) -> Option<Entries> {
    some_if_any(headers_of(header_lines_of(head_lines(input))))
}

/// The bytes of the body: as many of the bytes after the head as the header
/// fields announce. Meaningful where that many are there.
pub open spec fn body_bytes(input: Seq<u8>) -> Seq<u8> {
    let start = head_of(input).body_start;
    input.subrange(start, start + content_length_of(headers_in(input)))
}

/// What the bytes of a connection parse to.
///
/// The head lines are decoded one by one; the first is the request line, the
/// others are header lines. The body is as many of the bytes after the head
/// as the header fields announce, decoded; it is absent where that is none or
/// the decoded text is empty. Bytes beyond the announced length are ignored,
/// and fewer than announced are an error.
pub open spec fn parse_request(input: Seq<u8>) -> Result<RequestView, Error> {
    let lines = head_lines(input);
    if lines.len() == 0 {
        Err(Error::MalformedRequestLine)
    } else {
        match parse_request_line(lines[0]) {
            Err(e) => Err(e),
            Ok(request_line) => {
                let headers = headers_in(input);
                let length = content_length_of(headers);
                if input.len() - head_of(input).body_start < length {
                    Err(Error::TruncatedBody)
                } else {
                    let text = lossy_text(body_bytes(input));
                    Ok(
                        RequestView {
                            request_line,
                            headers,
                            body: if length == 0 || text.len() == 0 {
                                None
                            } else {
                                Some(text)
                            },
                        },
                    )
                }
            },
        }
    }
}

/// How many bytes a reader still has to fetch before the request is whole.
/// `None` while the empty line that ends the head has not come; after it, the
/// number of announced body bytes that are not there yet.
pub open spec fn missing_bytes(input: Seq<u8>) -> Option<int> {
    let head = head_of(input);
    if !head.complete {
        None
    } else {
        let length = content_length_of(headers_in(input));
        let present = input.len() - head.body_start;
        if present < length {
            Some(length - present)
        } else {
            Some(0)
        }
    }
}

/// A line ends at or after the place where it starts and within the input,
/// at the first line feed there is.
pub proof fn lemma_line_end(input: Seq<u8>, from: int)
    requires
        0 <= from <= input.len(),
    ensures
        from <= line_end(input, from) <= input.len(),
        line_end(input, from) < input.len() ==> input[line_end(input, from)] == LF,
        forall|i: int| from <= i < line_end(input, from) ==> input[i] != LF,
    decreases input.len() - from,
{
    if from < input.len() && input[from] != LF {
        lemma_line_end(input, from + 1);
    }
}

/// A request that misses no byte does not fail for want of body bytes.
pub proof fn lemma_whole_is_not_truncated(input: Seq<u8>)
    requires
        missing_bytes(input) == Some(0int),
    ensures
        parse_request(input) != Err::<RequestView, Error>(Error::TruncatedBody),
{
}

/// A parsed request.
#[derive(Debug)]
pub struct Request {
    request_line: RequestLine,
    headers: Option<StringMap>,
    body: Option<String>,
}

impl View for Request {
    type V = RequestView;

    closed spec fn view(&self) -> RequestView {
        RequestView {
            request_line: self.request_line@,
            headers: match self.headers {
                Some(map) => Some(map.entries()),
                None => None,
            },
            body: match self.body {
                Some(text) => Some(text@),
                None => None,
            },
        }
    }
}

/// The index of the first line feed at or after `from`.
fn find_line_end(input: &[u8], from: usize) -> (end: usize)
    requires
        from <= input.len(),
    ensures
        end == line_end(input@, from as int),
        from <= end <= input.len(),
{
    let mut i: usize = from;
    while i < input.len() && input[i] != LF
        invariant
            from <= i <= input.len(),
            line_end(input@, from as int) == line_end(input@, i as int),
        decreases input.len() - i,
    {
        i += 1;
    }
    i
}

/// Cuts the head off the input: its lines, where the body starts and whether
/// the head is complete.
fn read_head(input: &[u8]) -> (head: (Vec<Vec<u8>>, usize, bool))
    ensures
        head.0@.map_values(|line: Vec<u8>| line@) == head_of(input@).lines,
        head.1 == head_of(input@).body_start,
        head.2 == head_of(input@).complete,
        head.1 <= input.len(),
{
    let mut lines: Vec<Vec<u8>> = Vec::new();
    let mut from: usize = 0;
    while from < input.len()
        invariant
            from <= input.len(),
            head_of(input@).lines == lines@.map_values(|line: Vec<u8>| line@) + head_from(
                input@,
                from as int,
            ).lines,
            head_of(input@).body_start == head_from(input@, from as int).body_start,
            head_of(input@).complete == head_from(input@, from as int).complete,
        decreases input.len() - from,
    {
        let end = find_line_end(input, from);
        let ghost before = lines@.map_values(|line: Vec<u8>| line@);
        if end >= input.len() {
            lines.push(slice_to_vec(slice_subrange(input, from, end)));
            assert(lines@.map_values(|line: Vec<u8>| line@) =~= before + seq![
                input@.subrange(from as int, input.len() as int),
            ]);
            return (lines, input.len(), false);
        }
        let stop = if end > from && input[end - 1] == CR {
            end - 1
        } else {
            end
        };
        assert(input@.subrange(from as int, stop as int) =~= strip_cr(
            input@.subrange(from as int, end as int),
        ));
        if stop == from {
            assert(lines@.map_values(|line: Vec<u8>| line@) =~= before + Seq::<
                Seq<u8>,
            >::empty());
            return (lines, end + 1, true);
        }
        lines.push(slice_to_vec(slice_subrange(input, from, stop)));
        assert(lines@.map_values(|line: Vec<u8>| line@) =~= before.push(
            input@.subrange(from as int, stop as int),
        ));
        assert(before + (seq![input@.subrange(from as int, stop as int)] + head_from(
            input@,
            end + 1,
        ).lines) =~= before.push(input@.subrange(from as int, stop as int)) + head_from(
            input@,
            end + 1,
        ).lines);
        from = end + 1;
    }
    assert(lines@.map_values(|line: Vec<u8>| line@) =~= lines@.map_values(
        |line: Vec<u8>| line@,
    ) + Seq::<Seq<u8>>::empty());
    (lines, input.len(), false)
}

/// Decodes every line of a head.
fn decode_lines(raw: &Vec<Vec<u8>>) -> (lines: Vec<String>)
    ensures
        views(lines@) == raw@.map_values(|line: Vec<u8>| line@).map_values(
            |line: Seq<u8>| lossy_text(line),
        ),
{
    let mut lines: Vec<String> = Vec::new();
    let mut i: usize = 0;
    while i < raw.len()
        invariant
            i <= raw.len(),
            lines.len() == i,
            forall|j: int| 0 <= j < i ==> (#[trigger] lines@[j])@ == lossy_text(raw@[j]@),
        decreases raw.len() - i,
    {
        lines.push(decode_lossy(raw[i].as_slice()));
        i += 1;
    }
    assert(views(lines@) =~= raw@.map_values(|line: Vec<u8>| line@).map_values(
        |line: Seq<u8>| lossy_text(line),
    ));
    lines
}

impl Request {
    /// A request made of its parts, as they are given.
    pub fn new(
        request_line: RequestLine,
        headers: Option<StringMap>,
        body: Option<String>,
    ) -> (request: Self)
        ensures
            request@.request_line == request_line@,
            request@.headers == match headers {
                Some(map) => Some(map.entries()),
                None => None::<Entries>,
            },
            request@.body == match body {
                Some(text) => Some(text@),
                None => None::<Seq<char>>,
            },
    {
        Request { request_line, headers, body }
    }

    /// The request line.
    pub fn request_line(&self) -> (line: &RequestLine)
        ensures
            line@ == self@.request_line,
    {
        &self.request_line
    }

    /// The header fields, if there are any.
    pub fn headers(&self) -> (headers: Option<&StringMap>)
        ensures
            match headers {
                Some(map) => self@.headers == Some(map.entries()),
                None => self@.headers is None,
            },
    {
        self.headers.as_ref()
    }

    /// The body, if there is one.
    pub fn body(&self) -> (body: Option<&String>)
        ensures
            match body {
                Some(text) => self@.body == Some(text@),
                None => self@.body is None,
            },
    {
        self.body.as_ref()
    }

    /// The parameters in the body, taken as form-encoded text. A request
    /// without a body has none.
    pub fn get_body_params(self) -> (result: Result<StringMap, Error>)
        ensures
            match self@.body {
                None => result matches Ok(params) && params.entries() == Entries::empty(),
                Some(body) => match result {
                    Ok(params) => parse_params_spec(body) == Some(params.entries()),
                    Err(e) => e == Error::MalformedQueryOrBodyParam && parse_params_spec(body)
                        is None,
                },
            },
    {
        match self.body {
            Some(body) => parse_params(body.as_str()),
            None => Ok(StringMap::new()),
        }
    }

    /// The path of the request. It holds no `?`.
    pub fn get_path(self) -> (path: String)
        ensures
            path@ == self@.request_line.path,
            !path@.contains('?'),
    {
        self.request_line.get_path()
    }

    /// The parameters in the query of the request target. A request without
    /// a query has none.
    pub fn get_query_params(self) -> (result: Result<StringMap, Error>)
        ensures
            match self@.request_line.query {
                None => result matches Ok(params) && params.entries() == Entries::empty(),
                Some(query) => match result {
                    Ok(params) => parse_params_spec(query) == Some(params.entries()),
                    Err(e) => e == Error::MalformedQueryOrBodyParam && parse_params_spec(query)
                        is None,
                },
            },
    {
        self.request_line.get_query_params()
    }

    /// The header fields that the header lines give, or `None` if they give
    /// none.
    pub fn parse_headers(request_vec: &[String]) -> (headers: Option<StringMap>)
        ensures
            match headers {
                Some(map) => some_if_any(headers_of(views(request_vec@))) == Some(map.entries()),
                None => some_if_any(headers_of(views(request_vec@))) is None,
            },
    {
        let ghost lines = views(request_vec@);
        let mut headers = StringMap::new();
        let mut i: usize = 0;
        assert(lines.take(0) =~= Seq::<Seq<char>>::empty());
        while i < request_vec.len()
            invariant
                i <= request_vec.len(),
                lines == views(request_vec@),
                headers.entries() == headers_of(lines.take(i as int)),
            decreases request_vec.len() - i,
        {
            assert(lines.take(i + 1).drop_last() =~= lines.take(i as int));
            assert(lines.take(i + 1).last() == request_vec@[i as int]@);
            match split_once_str(request_vec[i].as_str(), ": ") {
                Some((name, value)) => {
                    headers.insert(name, value);
                },
                None => {},
            }
            i += 1;
        }
        assert(lines.take(i as int) =~= lines);
        if headers.is_empty() {
            None
        } else {
            Some(headers)
        }
    }

    /// The number of body bytes that the header fields announce.
    pub fn content_length(headers: &Option<StringMap>) -> (length: usize)
        ensures
            length == content_length_of(
                match headers {
                    Some(map) => Some(map.entries()),
                    None => None,
                },
            ),
    {
        match headers {
            Some(map) => match map.get("Content-Length") {
                Some(value) => {
                    let digits = to_chars(value.as_str());
                    match parse_usize(digits.as_slice()) {
                        Some(n) => n,
                        None => 0,
                    }
                },
                None => 0,
            },
            None => 0,
        }
    }

    /// Parses the request that the bytes of a connection hold.
    pub fn parse_from_bytes(input: &[u8]) -> (result: Result<Self, Error>)
        ensures
            match result {
                Ok(request) => parse_request(input@) == Ok::<RequestView, Error>(request@),
                Err(e) => parse_request(input@) == Err::<RequestView, Error>(e),
            },
            result matches Ok(request) ==> {
                &&& request@.headers == headers_in(input@)
                &&& request@.body matches Some(text) ==> text.len() > 0 && content_length_of(
                    request@.headers,
                ) > 0
                &&& content_length_of(request@.headers) > 0 && valid_utf8(body_bytes(input@))
                    ==> request@.body == Some(decode_utf8(body_bytes(input@))) && encode_utf8(
                    request@.body->0,
                ) == body_bytes(input@)
            },
    {
        let (raw, body_start, _) = read_head(input);
        let lines = decode_lines(&raw);
        if lines.len() == 0 {
            return Err(Error::MalformedRequestLine);
        }
        let ghost texts = views(lines@);
        assert(texts[0] == lines@[0]@);
        let request_line = match RequestLine::from_string(&lines[0]) {
            Ok(line) => line,
            Err(e) => {
                return Err(e);
            },
        };
        let header_lines = slice_subrange(lines.as_slice(), 1, lines.len());
        assert(views(header_lines@) =~= texts.skip(1));
        let headers = Self::parse_headers(header_lines);
        let length = Self::content_length(&headers);
        if input.len() - body_start < length {
            return Err(Error::TruncatedBody);
        }
        let body = if length == 0 {
            None
        } else {
            let text = decode_lossy(slice_subrange(input, body_start, body_start + length));
            proof {
                if valid_utf8(body_bytes(input@)) {
                    decode_utf8_encode_utf8(body_bytes(input@));
                }
            }
            if text.as_str().is_empty() {
                None
            } else {
                Some(text)
            }
        };
        Ok(Request { request_line, headers, body })
    }

    /// How many bytes are still missing from the request that `input` begins:
    /// `None` while the head is not complete, else the number of announced
    /// body bytes that have not arrived.
    pub fn bytes_missing(input: &[u8]) -> (missing: Option<usize>)
        ensures
            match missing {
                Some(n) => missing_bytes(input@) == Some(n as int),
                None => missing_bytes(input@) is None,
            },
    {
        let (raw, body_start, complete) = read_head(input);
        if !complete {
            return None;
        }
        let lines = decode_lines(&raw);
        let from: usize = if lines.len() == 0 {
            0
        } else {
            1
        };
        let header_lines = slice_subrange(lines.as_slice(), from, lines.len());
        assert(views(header_lines@) =~= header_lines_of(views(lines@)));
        let headers = Self::parse_headers(header_lines);
        let length = Self::content_length(&headers);
        let present = input.len() - body_start;
        if present < length {
            Some(length - present)
        } else {
            Some(0)
        }
    }
}

} // verus!
