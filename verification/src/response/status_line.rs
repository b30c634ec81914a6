//! The first line of a response: protocol version, status code and reason
//! phrase.

use vstd::prelude::*;
use vstd::string::*;

use crate::decimal::{
    int_text, lemma_int_text_chars, lemma_parse_int_text, parse_i32, parse_signed, push_int,
};
use crate::text::{
    join, join_strings, lemma_contains_char, lemma_join_split, lemma_split_first, split,
    split_str, to_chars, views,
};

verus! {

/// The model of a status line.
pub struct StatusLineView {
    pub http_version: Seq<char>,
    pub status_code: int,
    pub reason_phrase: Seq<char>,
}

/// A status line as it is written: the three parts with one space between
/// each two, the status code in decimal.
pub open spec fn status_line_text(line: StatusLineView) -> Seq<char> {
    line.http_version + " "@ + int_text(line.status_code) + " "@ + line.reason_phrase
}

/// What a written status line parses to. The text is cut at single spaces:
/// the first token is the protocol version, the second the status code, and
/// all further tokens, with the spaces between them, are the reason phrase.
/// There is no status line in a text with fewer than two tokens or with a
/// second token that does not read as an `i32`.
pub open spec fn parse_status_line(text: Seq<char>) -> Option<StatusLineView> {
    let tokens = split(text, " "@);
    if tokens.len() < 2 {
        None
    } else {
        match parse_signed(tokens[1], i32::MIN as int, i32::MAX as int) {
            Some(status_code) => Some(
                StatusLineView {
                    http_version: tokens[0],
                    status_code,
                    reason_phrase: join(tokens.skip(2), " "@),
                },
            ),
            None => None,
        }
    }
}

/// Writing a status line and parsing what was written gives the status line
/// back, provided that its protocol version holds no space and its status
/// code is an `i32`.
pub proof fn lemma_parse_written(line: StatusLineView)
    requires
        !line.http_version.contains(' '),
        i32::MIN <= line.status_code <= i32::MAX,
    ensures
        parse_status_line(status_line_text(line)) == Some(line),
{
    reveal_strlit(" ");
    let sep = " "@;
    let code = int_text(line.status_code);
    let tail = code + sep + line.reason_phrase;
    lemma_contains_char(line.http_version, sep);
    lemma_int_text_chars(line.status_code);
    lemma_contains_char(code, sep);
    lemma_split_first(line.http_version, sep, tail);
    lemma_split_first(code, sep, line.reason_phrase);
    lemma_join_split(line.reason_phrase, sep);
    lemma_parse_int_text(line.status_code, i32::MIN as int, i32::MAX as int);
    assert(status_line_text(line) =~= line.http_version + sep + tail);
    let tokens = split(status_line_text(line), sep);
    assert(tokens =~= seq![line.http_version] + (seq![code] + split(line.reason_phrase, sep)));
    assert(tokens.skip(2) =~= split(line.reason_phrase, sep));
}

/// Parsing a written status line and writing what was parsed gives the text
/// back, provided that the text has a reason phrase, that is a third token,
/// and that its status code is written in the shortest way.
pub proof fn lemma_write_parsed(text: Seq<char>, line: StatusLineView)
    requires
        parse_status_line(text) == Some(line),
        split(text, " "@).len() >= 3,
        split(text, " "@)[1] == int_text(line.status_code),
    ensures
        status_line_text(line) == text,
{
    reveal_strlit(" ");
    let sep = " "@;
    let tokens = split(text, sep);
    lemma_join_split(text, sep);
    let rest = tokens.drop_first();
    assert(join(tokens, sep) == tokens[0] + sep + join(rest, sep));
    assert(join(rest, sep) == rest[0] + sep + join(rest.drop_first(), sep));
    assert(rest.drop_first() =~= tokens.skip(2));
    assert(status_line_text(line) =~= text);
}

/// A status line.
#[derive(Debug)]
pub struct StatusLine {
    http_version: String,
    status_code: i32,
    reason_phrase: String,
}

impl View for StatusLine {
    type V = StatusLineView;

    closed spec fn view(&self) -> StatusLineView {
        StatusLineView {
            http_version: self.http_version@,
            status_code: self.status_code as int,
            reason_phrase: self.reason_phrase@,
        }
    }
}

impl StatusLine {
    /// A status line made of its three parts.
    pub fn new(http_version: String, status_code: i32, reason_phrase: String) -> (line: Self)
        ensures
            line@ == (StatusLineView {
                http_version: http_version@,
                status_code: status_code as int,
                reason_phrase: reason_phrase@,
            }),
    {
        StatusLine { http_version, status_code, reason_phrase }
    }

    /// The status line as it is written on the wire, without a line
    /// terminator.
    pub fn as_string(&self) -> (text: String)
        ensures
            text@ == status_line_text(self@),
    {
        let mut text = self.http_version.clone();
        text.append(" ");
        push_int(&mut text, self.status_code as i64);
        text.append(" ");
        text.append(self.reason_phrase.as_str());
        text
    }

    /// Parses a written status line, if `s` is one.
    pub fn parse(s: &str) -> (line: Option<Self>)
        ensures
            match line {
                Some(line) => parse_status_line(s@) == Some(line@),
                None => parse_status_line(s@) is None,
            },
    {
        proof {
            reveal_strlit(" ");
        }
        let tokens = split_str(s, " ");
        if tokens.len() < 2 {
            return None;
        }
        assert(views(tokens@)[0] == tokens@[0]@);
        assert(views(tokens@)[1] == tokens@[1]@);
        let digits = to_chars(tokens[1].as_str());
        match parse_i32(digits.as_slice()) {
            Some(status_code) => {
                let reason_phrase = join_strings(tokens.as_slice(), 2, " ");
                Some(StatusLine { http_version: tokens[0].clone(), status_code, reason_phrase })
            },
            None => None,
        }
    }

    /// Parses a written status line.
    pub fn from_str(s: &str) -> (line: Self)
        requires
            parse_status_line(s@) is Some,
        ensures
            parse_status_line(s@) == Some(line@),
    {
        Self::parse(s).unwrap()
    }
}

} // verus!
