//! The first line of a request: method, request target and protocol version.

use vstd::prelude::*;
use vstd::string::*;

use super::params::{parse_params, parse_params_spec};
use super::request_method::RequestMethod;
use crate::string_map::{Entries, StringMap};
use crate::error::Error;
use crate::text::{
    ascii_lowercase, contains, contains_chars, first_match, lemma_contains_char,
    lemma_first_match, lemma_no_match_by_first_char, lemma_split_first, lemma_split_none,
    lowercase_chars, matches_at, split, split_once, split_once_str, split_str, to_chars, views,
};

verus! {

/// The model of a request line.
pub struct RequestLineView {
    pub method: RequestMethod,
    pub path: Seq<char>,
    pub query: Option<Seq<char>>,
    pub http_version: Seq<char>,
}

impl RequestLineView {
    /// The request target that the path and the query were cut from.
    pub open spec fn target(self) -> Seq<char> {
        match self.query {
            Some(query) => self.path + "?"@ + query,
            None => self.path,
        }
    }
}

/// The verb that a method token stands for: the first of DELETE, GET, HEAD,
/// OPTIONS, PATCH, POST, PUT whose name occurs in the token, ignoring the case
/// of ASCII letters. The name may occur anywhere in the token.
pub open spec fn method_of(token: Seq<char>) -> Option<RequestMethod> {
    let folded = ascii_lowercase(token);
    if contains(folded, "delete"@) {
        Some(RequestMethod::Delete)
    } else if contains(folded, "get"@) {
        Some(RequestMethod::Get)
    } else if contains(folded, "head"@) {
        Some(RequestMethod::Head)
    } else if contains(folded, "options"@) {
        Some(RequestMethod::Options)
    } else if contains(folded, "patch"@) {
        Some(RequestMethod::Patch)
    } else if contains(folded, "post"@) {
        Some(RequestMethod::Post)
    } else if contains(folded, "put"@) {
        Some(RequestMethod::Put)
    } else {
        None
    }
}

/// The path of a request target: what stands before its first `?`, or all of
/// it if it has none.
pub open spec fn path_of(target: Seq<char>) -> Seq<char> {
    match split_once(target, "?"@) {
        Some((path, _)) => path,
        None => target,
    }
}

/// The query of a request target: what stands after its first `?`, if it has
/// one.
pub open spec fn query_of(target: Seq<char>) -> Option<Seq<char>> {
    match split_once(target, "?"@) {
        Some((_, query)) => Some(query),
        None => None,
    }
}

/// What a request line parses to. The line is cut at single spaces; the first
/// three tokens are the method, the request target and the protocol version,
/// and further tokens are ignored.
pub open spec fn parse_request_line(line: Seq<char>) -> Result<RequestLineView, Error> {
    let tokens = split(line, " "@);
    if tokens.len() < 3 {
        Err(Error::MalformedRequestLine)
    } else {
        match method_of(tokens[0]) {
            None => Err(Error::UnknownMethod),
            Some(method) => Ok(
                RequestLineView {
                    method,
                    path: path_of(tokens[1]),
                    query: query_of(tokens[1]),
                    http_version: tokens[2],
                },
            ),
        }
    }
}

/// The name of a verb as a request line spells it.
pub open spec fn method_name(method: RequestMethod) -> Seq<char> {
    match method {
        RequestMethod::Delete => "DELETE"@,
        RequestMethod::Get => "GET"@,
        RequestMethod::Head => "HEAD"@,
        RequestMethod::Options => "OPTIONS"@,
        RequestMethod::Patch => "PATCH"@,
        RequestMethod::Post => "POST"@,
        RequestMethod::Put => "PUT"@,
    }
}

/// The name of each verb stands for that verb.
pub proof fn lemma_method_of_name(method: RequestMethod)
    ensures
        method_of(method_name(method)) == Some(method),
        !method_name(method).contains(' '),
{
    reveal_strlit("DELETE");
    reveal_strlit("GET");
    reveal_strlit("HEAD");
    reveal_strlit("OPTIONS");
    reveal_strlit("PATCH");
    reveal_strlit("POST");
    reveal_strlit("PUT");
    reveal_strlit("delete");
    reveal_strlit("get");
    reveal_strlit("head");
    reveal_strlit("options");
    reveal_strlit("patch");
    reveal_strlit("post");
    reveal_strlit("put");
    let folded = ascii_lowercase(method_name(method));
    match method {
        RequestMethod::Delete => {
            assert(folded =~= "delete"@);
        },
        RequestMethod::Get => {
            assert(folded =~= "get"@);
        },
        RequestMethod::Head => {
            assert(folded =~= "head"@);
        },
        RequestMethod::Options => {
            assert(folded =~= "options"@);
        },
        RequestMethod::Patch => {
            assert(folded =~= "patch"@);
        },
        RequestMethod::Post => {
            assert(folded =~= "post"@);
        },
        RequestMethod::Put => {
            assert(folded =~= "put"@);
        },
    }
    assert(folded.subrange(0, folded.len() as int) =~= folded);
    if method != RequestMethod::Delete {
        lemma_no_match_by_first_char(folded, "delete"@);
        if method != RequestMethod::Get {
            lemma_no_match_by_first_char(folded, "get"@);
            if method != RequestMethod::Head {
                lemma_no_match_by_first_char(folded, "head"@);
                if method != RequestMethod::Options {
                    lemma_no_match_by_first_char(folded, "options"@);
                    if method != RequestMethod::Patch {
                        lemma_no_match_by_first_char(folded, "patch"@);
                        if method != RequestMethod::Post {
                            lemma_no_match_by_first_char(folded, "post"@);
                        }
                    }
                }
            }
        }
    }
}

/// Path and query, put together again with the `?` between them, are the
/// request target they were cut from, and the path holds no `?`.
pub proof fn lemma_target_parts(target: Seq<char>)
    ensures
        !path_of(target).contains('?'),
        match query_of(target) {
            Some(query) => path_of(target) + "?"@ + query == target,
            None => path_of(target) == target,
        },
{
    reveal_strlit("?");
    let sep = "?"@;
    lemma_first_match(target, sep, 0);
    match first_match(target, sep, 0) {
        Some(i) => {
            let path = target.take(i);
            assert(target.subrange(i, i + 1) =~= sep);
            assert(path + sep + target.skip(i + 1) =~= target);
            if path.contains('?') {
                let j = choose|j: int| 0 <= j < path.len() && path[j] == '?';
                assert(target.subrange(j, j + 1) =~= sep);
                assert(matches_at(target, sep, j));
            }
        },
        None => {
            lemma_contains_char(target, sep);
        },
    }
}

/// A request line made of a verb's name, a request target and a protocol
/// version, with one space between each two and none inside target and
/// version, parses to that verb and that version, and its path and query
/// give the request target back.
pub proof fn lemma_parse_well_formed(
    method: RequestMethod,
    target: Seq<char>,
    http_version: Seq<char>,
)
    requires
        !target.contains(' '),
        !http_version.contains(' '),
    ensures
        parse_request_line(method_name(method) + " "@ + target + " "@ + http_version) matches Ok(
            line,
        ) && line.method == method && line.target() == target && line.http_version
            == http_version && !line.path.contains('?'),
{
    reveal_strlit(" ");
    let sep = " "@;
    let name = method_name(method);
    let tail = target + sep + http_version;
    lemma_method_of_name(method);
    lemma_target_parts(target);
    lemma_contains_char(name, sep);
    lemma_contains_char(target, sep);
    lemma_contains_char(http_version, sep);
    lemma_split_first(name, sep, tail);
    lemma_split_first(target, sep, http_version);
    lemma_split_none(http_version, sep);
    let text = name + sep + target + sep + http_version;
    assert(text =~= name + sep + tail);
    assert(split(text, sep) =~= seq![name, target, http_version]);
}

/// A parsed request line.
#[derive(Debug)]
pub struct RequestLine {
    method: RequestMethod,
    path: String,
    query: Option<String>,
    http_version: String,
}

impl View for RequestLine {
    type V = RequestLineView;

    closed spec fn view(&self) -> RequestLineView {
        RequestLineView {
            method: self.method,
            path: self.path@,
            query: match self.query {
                Some(query) => Some(query@),
                None => None,
            },
            http_version: self.http_version@,
        }
    }
}

impl RequestLine {
    /// The invariant of the type: the path holds no `?`.
    #[verifier::type_invariant]
    pub closed spec fn path_is_plain(&self) -> bool {
        !self.path@.contains('?')
    }

    /// Parses the first line of a request, given without its line terminator.
    pub fn from_string(request_line: &String) -> (result: Result<Self, Error>)
        ensures
            match result {
                Ok(line) => parse_request_line(request_line@) == Ok::<RequestLineView, Error>(
                    line@,
                ),
                Err(e) => parse_request_line(request_line@) == Err::<RequestLineView, Error>(e),
            },
            result matches Ok(line) ==> line@.target() == split(request_line@, " "@)[1]
                && !line@.path.contains('?'),
    {
        proof {
            reveal_strlit(" ");
            lemma_target_parts(split(request_line@, " "@)[1]);
        }
        let tokens = split_str(request_line.as_str(), " ");
        if tokens.len() < 3 {
            return Err(Error::MalformedRequestLine);
        }
        assert(views(tokens@)[0] == tokens@[0]@);
        assert(views(tokens@)[1] == tokens@[1]@);
        assert(views(tokens@)[2] == tokens@[2]@);
        let method = match Self::parse_method(tokens[0].as_str()) {
            Ok(method) => method,
            Err(e) => {
                return Err(e);
            },
        };
        let target = tokens[1].as_str();
        let (path, query) = match split_once_str(target, "?") {
            Some((path, query)) => (path, Some(query)),
            None => (target.to_owned(), None),
        };
        Ok(RequestLine { method, path, query, http_version: tokens[2].clone() })
    }

    /// The path of the request. It holds no `?`.
    pub fn get_path(self) -> (path: String)
        ensures
            path@ == self@.path,
            !path@.contains('?'),
    {
        proof {
            use_type_invariant(&self);
        }
        self.path
    }

    /// The verb of the request.
    pub fn method(&self) -> (method: RequestMethod)
        ensures
            method == self@.method,
    {
        self.method
    }

    /// The path of the request. It holds no `?`.
    pub fn path(&self) -> (path: &String)
        ensures
            path@ == self@.path,
            !path@.contains('?'),
    {
        proof {
            use_type_invariant(self);
        }
        &self.path
    }

    /// The query of the request, if it has one.
    pub fn query(&self) -> (query: Option<&String>)
        ensures
            match query {
                Some(text) => self@.query == Some(text@),
                None => self@.query is None,
            },
    {
        self.query.as_ref()
    }

    /// The protocol version of the request.
    pub fn http_version(&self) -> (version: &String)
        ensures
            version@ == self@.http_version,
    {
        &self.http_version
    }

    /// The parameters in the query, taken as form-encoded text. A request
    /// line without a query has none.
    pub fn get_query_params(self) -> (result: Result<StringMap, Error>)
        ensures
            match self@.query {
                None => result matches Ok(params) && params.entries() == Entries::empty(),
                Some(query) => match result {
                    Ok(params) => parse_params_spec(query) == Some(params.entries()),
                    Err(e) => e == Error::MalformedQueryOrBodyParam && parse_params_spec(query)
                        is None,
                },
            },
    {
        match self.query {
            Some(query) => parse_params(query.as_str()),
            None => Ok(StringMap::new()),
        }
    }

    /// Finds the verb that a method token stands for.
    pub fn parse_method(request_line: &str) -> (result: Result<RequestMethod, Error>)
        ensures
            match result {
                Ok(method) => method_of(request_line@) == Some(method),
                Err(e) => e == Error::UnknownMethod && method_of(request_line@) is None,
            },
    {
        let chars = to_chars(request_line);
        let folded = lowercase_chars(chars.as_slice());
        if contains_chars(folded.as_slice(), to_chars("delete").as_slice()) {
            Ok(RequestMethod::Delete)
        } else if contains_chars(folded.as_slice(), to_chars("get").as_slice()) {
            Ok(RequestMethod::Get)
        } else if contains_chars(folded.as_slice(), to_chars("head").as_slice()) {
            Ok(RequestMethod::Head)
        } else if contains_chars(folded.as_slice(), to_chars("options").as_slice()) {
            Ok(RequestMethod::Options)
        } else if contains_chars(folded.as_slice(), to_chars("patch").as_slice()) {
            Ok(RequestMethod::Patch)
        } else if contains_chars(folded.as_slice(), to_chars("post").as_slice()) {
            Ok(RequestMethod::Post)
        } else if contains_chars(folded.as_slice(), to_chars("put").as_slice()) {
            Ok(RequestMethod::Put)
        } else {
            Err(Error::UnknownMethod)
        }
    }

    /// The path of a request target.
    pub fn parse_path(s: &str) -> (path: String)
        ensures
            path@ == path_of(s@),
    {
        match split_once_str(s, "?") {
            Some((path, _)) => path,
            None => s.to_owned(),
        }
    }

    /// The query of a request target, if it has one.
    pub fn parse_query(s: &str) -> (query: Option<String>)
        ensures
            match query {
                Some(text) => query_of(s@) == Some(text@),
                None => query_of(s@) is None,
            },
    {
        match split_once_str(s, "?") {
            Some((_, query)) => Some(query),
            None => None,
        }
    }
}

} // verus!
