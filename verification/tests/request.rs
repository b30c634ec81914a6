use std::collections::HashMap;

use webserver::error::Error;
use webserver::request::params::parse_params;
use webserver::request::request_line::RequestLine;
use webserver::request::request_method::RequestMethod;
use webserver::request::Request;
use webserver::string_map::StringMap;

fn as_hash_map(map: &StringMap) -> HashMap<String, String> {
    let mut out = HashMap::new();
    for i in 0..map.len() {
        out.insert(map.key_at(i).clone(), map.value_at(i).clone());
    }
    assert_eq!(out.len(), map.len());
    out
}

#[test]
fn get_one_body_param() {
    let request = Request::new(
        RequestLine::from_string(&"GET / HTTP/1.1".to_string()).unwrap(),
        None,
        Some("name=alice".to_string()),
    );

    let expected = HashMap::from([("name".to_string(), "alice".to_string())]);
    let actual = request.get_body_params().unwrap();

    assert_eq!(expected, as_hash_map(&actual));
}

#[test]
fn get_multiple_body_params() {
    let request = Request::new(
        RequestLine::from_string(&"GET / HTTP/1.1".to_string()).unwrap(),
        None,
        Some("name=alice&password=1234&isHuman=true".to_string()),
    );

    let expected = HashMap::from([
        ("name".to_string(), "alice".to_string()),
        ("password".to_string(), "1234".to_string()),
        ("isHuman".to_string(), "true".to_string()),
    ]);
    let actual = request.get_body_params().unwrap();

    assert_eq!(expected, as_hash_map(&actual));
}

#[test]
fn get_no_body_param() {
    let request = Request::new(
        RequestLine::from_string(&"GET / HTTP/1.1".to_string()).unwrap(),
        None,
        None,
    );

    let expected = HashMap::new();
    let actual = request.get_body_params().unwrap();

    assert_eq!(expected, as_hash_map(&actual));
}

#[test]
fn malformed_params_are_an_error() {
    for text in ["", "a", "a=b=c", "a=b&", "a=b&c", "&a=b", "a=b&&c=d"] {
        assert_eq!(parse_params(text).unwrap_err(), Error::MalformedQueryOrBodyParam);
    }
}

#[test]
fn params_keep_the_last_value_and_the_first_place() {
    let params = parse_params("a=1&b=2&a=3&=&c=").unwrap();
    assert_eq!(params.len(), 4);
    assert_eq!((params.key_at(0).as_str(), params.value_at(0).as_str()), ("a", "3"));
    assert_eq!((params.key_at(1).as_str(), params.value_at(1).as_str()), ("b", "2"));
    assert_eq!((params.key_at(2).as_str(), params.value_at(2).as_str()), ("", ""));
    assert_eq!((params.key_at(3).as_str(), params.value_at(3).as_str()), ("c", ""));
}

#[test]
fn body_of_announced_length_is_read() {
    let input = b"POST /submit HTTP/1.1\r\nHost: example.com\r\nContent-Length: 10\r\n\r\n0123456789";
    let request = Request::parse_from_bytes(input).unwrap();
    assert_eq!(request.body(), Some(&"0123456789".to_string()));
    assert_eq!(request.request_line().method(), RequestMethod::Post);
    assert_eq!(request.request_line().path(), "/submit");
    let headers = request.headers().unwrap();
    assert_eq!(headers.len(), 2);
    assert_eq!(headers.get("Host"), Some(&"example.com".to_string()));
    assert_eq!(headers.get("Content-Length"), Some(&"10".to_string()));
    assert_eq!(request.get_path(), "/submit");
}

#[test]
fn truncated_body_is_an_error() {
    let input = b"POST / HTTP/1.1\r\nContent-Length: 10\r\n\r\nabc";
    assert_eq!(Request::parse_from_bytes(input).unwrap_err(), Error::TruncatedBody);
    let input = b"POST / HTTP/1.1\r\nContent-Length: 1";
    assert_eq!(Request::parse_from_bytes(input).unwrap_err(), Error::TruncatedBody);
}

#[test]
fn bytes_after_the_body_are_ignored() {
    let input = b"POST / HTTP/1.1\r\nContent-Length: 3\r\n\r\nabcdef";
    let request = Request::parse_from_bytes(input).unwrap();
    assert_eq!(request.body(), Some(&"abc".to_string()));
}

#[test]
fn body_params_of_a_parsed_request() {
    let input =
        b"POST /login HTTP/1.1\r\nContent-Length: 37\r\n\r\nname=alice&password=1234&isHuman=true";
    let request = Request::parse_from_bytes(input).unwrap();
    let expected = HashMap::from([
        ("name".to_string(), "alice".to_string()),
        ("password".to_string(), "1234".to_string()),
        ("isHuman".to_string(), "true".to_string()),
    ]);
    assert_eq!(expected, as_hash_map(&request.get_body_params().unwrap()));
}

#[test]
fn query_params_of_a_parsed_request() {
    let input = b"GET /search?q=rust&page=2 HTTP/1.1\r\n\r\n";
    let request = Request::parse_from_bytes(input).unwrap();
    let expected = HashMap::from([
        ("q".to_string(), "rust".to_string()),
        ("page".to_string(), "2".to_string()),
    ]);
    assert_eq!(expected, as_hash_map(&request.get_query_params().unwrap()));
}

#[test]
fn request_without_headers_or_body() {
    for input in [&b"GET / HTTP/1.1\r\n\r\n"[..], b"GET / HTTP/1.1\n\n", b"GET / HTTP/1.1"] {
        let request = Request::parse_from_bytes(input).unwrap();
        assert!(request.headers().is_none());
        assert!(request.body().is_none());
        assert_eq!(request.request_line().http_version(), "HTTP/1.1");
    }
}

#[test]
fn absent_or_unreadable_content_length_counts_as_zero() {
    for value in ["", "abc", "-1", "1.5", " 3", "3 ", "99999999999999999999999999"] {
        let text = format!("POST / HTTP/1.1\r\nContent-Length: {}\r\n\r\nabc", value);
        let request = Request::parse_from_bytes(text.as_bytes()).unwrap();
        assert!(request.body().is_none());
    }
    let request = Request::parse_from_bytes(b"POST / HTTP/1.1\r\nHost: a\r\n\r\nabc").unwrap();
    assert!(request.body().is_none());
    let request =
        Request::parse_from_bytes(b"POST / HTTP/1.1\r\nContent-Length: +3\r\n\r\nabc").unwrap();
    assert_eq!(request.body(), Some(&"abc".to_string()));
    let request =
        Request::parse_from_bytes(b"POST / HTTP/1.1\r\nContent-Length: 003\r\n\r\nabc").unwrap();
    assert_eq!(request.body(), Some(&"abc".to_string()));
}

#[test]
fn header_lines_without_colon_space_are_dropped() {
    let input = b"GET / HTTP/1.1\r\nHost: a\r\nBroken\r\nAlso:broken\r\nAccept: */*\r\n\r\n";
    let request = Request::parse_from_bytes(input).unwrap();
    let headers = request.headers().unwrap();
    assert_eq!(headers.len(), 2);
    assert_eq!(headers.get("Host"), Some(&"a".to_string()));
    assert_eq!(headers.get("Accept"), Some(&"*/*".to_string()));
    assert_eq!(headers.get("Broken"), None);
}

#[test]
fn repeated_header_keeps_the_last_value() {
    let input = b"GET / HTTP/1.1\r\nX: 1\r\nY: 2\r\nX: 3\r\n\r\n";
    let request = Request::parse_from_bytes(input).unwrap();
    let headers = request.headers().unwrap();
    assert_eq!(headers.len(), 2);
    assert_eq!(headers.get("X"), Some(&"3".to_string()));
    assert_eq!(headers.get("Y"), Some(&"2".to_string()));
}

#[test]
fn header_value_is_cut_at_the_first_colon_space() {
    let lines = vec!["Name: a: b".to_string(), ": v".to_string(), "K: ".to_string()];
    let headers = Request::parse_headers(&lines).unwrap();
    assert_eq!(headers.len(), 3);
    assert_eq!(headers.get("Name"), Some(&"a: b".to_string()));
    assert_eq!(headers.get(""), Some(&"v".to_string()));
    assert_eq!(headers.get("K"), Some(&"".to_string()));
    assert!(Request::parse_headers(&[]).is_none());
    assert!(Request::parse_headers(&["nothing".to_string()]).is_none());
}

#[test]
fn content_length_of_header_fields() {
    assert_eq!(Request::content_length(&None), 0);
    let lines = vec!["Content-Length: 42".to_string()];
    assert_eq!(Request::content_length(&Request::parse_headers(&lines)), 42);
    let lines = vec!["content-length: 42".to_string()];
    assert_eq!(Request::content_length(&Request::parse_headers(&lines)), 0);
    let lines = vec!["Content-Length: 0".to_string()];
    assert_eq!(Request::content_length(&Request::parse_headers(&lines)), 0);
}

#[test]
fn invalid_bytes_are_replaced_when_decoding() {
    let mut input = b"POST / HTTP/1.1\r\nContent-Length: 3\r\n\r\n".to_vec();
    input.extend_from_slice(&[b'a', 0xff, b'b']);
    let request = Request::parse_from_bytes(&input).unwrap();
    assert_eq!(request.body(), Some(&"a\u{fffd}b".to_string()));

    let mut input = b"GET /".to_vec();
    input.push(0xfe);
    input.extend_from_slice(b" HTTP/1.1\r\n\r\n");
    let request = Request::parse_from_bytes(&input).unwrap();
    assert_eq!(request.request_line().path(), "/\u{fffd}");
}

#[test]
fn multibyte_body_is_counted_in_bytes() {
    let input = "POST / HTTP/1.1\r\nContent-Length: 5\r\n\r\nh\u{e9}llo".as_bytes();
    let request = Request::parse_from_bytes(input).unwrap();
    assert_eq!(request.body(), Some(&"h\u{e9}ll".to_string()));
}

#[test]
fn empty_input_has_no_request_line() {
    assert_eq!(Request::parse_from_bytes(b"").unwrap_err(), Error::MalformedRequestLine);
    assert_eq!(Request::parse_from_bytes(b"\r\n").unwrap_err(), Error::MalformedRequestLine);
    assert_eq!(Request::parse_from_bytes(b"\n").unwrap_err(), Error::MalformedRequestLine);
    assert_eq!(
        Request::parse_from_bytes(b"GET /\r\n\r\n").unwrap_err(),
        Error::MalformedRequestLine
    );
    assert_eq!(
        Request::parse_from_bytes(b"ASDF / HTTP/1.1\r\n\r\n").unwrap_err(),
        Error::UnknownMethod
    );
}

#[test]
fn request_line_error_comes_before_truncated_body() {
    let input = b"ASDF / HTTP/1.1\r\nContent-Length: 10\r\n\r\nabc";
    assert_eq!(Request::parse_from_bytes(input).unwrap_err(), Error::UnknownMethod);
}

#[test]
fn carriage_return_is_only_stripped_before_line_feed() {
    let request = Request::parse_from_bytes(b"GET / HTTP/1.1\r").unwrap();
    assert_eq!(request.request_line().http_version(), "HTTP/1.1\r");
    let request = Request::parse_from_bytes(b"GET / HTTP/1.1\r\r\n\r\n").unwrap();
    assert_eq!(request.request_line().http_version(), "HTTP/1.1\r");
}

#[test]
fn bytes_missing_follows_the_input() {
    assert_eq!(Request::bytes_missing(b""), None);
    assert_eq!(Request::bytes_missing(b"GET / HTTP/1.1"), None);
    assert_eq!(Request::bytes_missing(b"GET / HTTP/1.1\r\n"), None);
    assert_eq!(Request::bytes_missing(b"GET / HTTP/1.1\r\nHost: a\r\n"), None);
    assert_eq!(Request::bytes_missing(b"GET / HTTP/1.1\r\nHost: a\r\n\r"), None);
    assert_eq!(Request::bytes_missing(b"GET / HTTP/1.1\r\nHost: a\r\n\r\n"), Some(0));
    assert_eq!(Request::bytes_missing(b"\r\n"), Some(0));
    let head = b"POST / HTTP/1.1\r\nContent-Length: 10\r\n\r\n";
    assert_eq!(Request::bytes_missing(head), Some(10));
    let mut input = head.to_vec();
    input.extend_from_slice(b"abc");
    assert_eq!(Request::bytes_missing(&input), Some(7));
    input.extend_from_slice(b"defghij");
    assert_eq!(Request::bytes_missing(&input), Some(0));
    input.extend_from_slice(b"more");
    assert_eq!(Request::bytes_missing(&input), Some(0));
}
