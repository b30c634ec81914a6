use webserver::error::Error;
use webserver::request::request_line::RequestLine;
use webserver::request::request_method::RequestMethod;

#[test]
fn should_parse_delete_method() {
    let row = "DELETE / HTTP/1.1";
    let result = RequestLine::parse_method(row);

    assert_eq!(Ok(RequestMethod::Delete), result);
}

#[test]
fn should_parse_get_method() {
    let row = "GET / HTTP/1.1";
    let result = RequestLine::parse_method(row);

    assert_eq!(Ok(RequestMethod::Get), result);
}

#[test]
fn should_parse_head_method() {
    let row = "HEAD / HTTP/1.1";
    let result = RequestLine::parse_method(row);

    assert_eq!(Ok(RequestMethod::Head), result);
}

#[test]
fn should_parse_options_method() {
    let row = "OPTIONS / HTTP/1.1";
    let result = RequestLine::parse_method(row);

    assert_eq!(Ok(RequestMethod::Options), result);
}

#[test]
fn should_parse_patch_method() {
    let row = "PATCH / HTTP/1.1";
    let result = RequestLine::parse_method(row);

    assert_eq!(Ok(RequestMethod::Patch), result);
}

#[test]
fn should_parse_post_method() {
    let row = "POST / HTTP/1.1";
    let result = RequestLine::parse_method(row);

    assert_eq!(Ok(RequestMethod::Post), result);
}

#[test]
fn should_parse_put_method() {
    let row = "PUT / HTTP/1.1";
    let result = RequestLine::parse_method(row);

    assert_eq!(Ok(RequestMethod::Put), result);
}

#[test]
#[should_panic]
fn should_not_parse_method_of_unknown_type() {
    let row = "ASDF / HTTP/1.1";
    RequestLine::parse_method(row).unwrap();
}

#[test]
fn unknown_method_is_reported() {
    assert_eq!(Err(Error::UnknownMethod), RequestLine::parse_method("ASDF / HTTP/1.1"));
    assert_eq!(Err(Error::UnknownMethod), RequestLine::parse_method("ASDF"));
    assert_eq!(Err(Error::UnknownMethod), RequestLine::parse_method(""));
    let line = RequestLine::from_string(&"ASDF / HTTP/1.1".to_string());
    assert_eq!(Error::UnknownMethod, line.unwrap_err());
}

#[test]
fn method_is_matched_ignoring_ascii_case() {
    assert_eq!(Ok(RequestMethod::Get), RequestLine::parse_method("get"));
    assert_eq!(Ok(RequestMethod::Get), RequestLine::parse_method("GeT"));
    assert_eq!(Ok(RequestMethod::Options), RequestLine::parse_method("oPtIoNs"));
}

#[test]
fn method_is_matched_anywhere_in_the_token_in_fixed_order() {
    assert_eq!(Ok(RequestMethod::Get), RequestLine::parse_method("xxgetxx"));
    assert_eq!(Ok(RequestMethod::Delete), RequestLine::parse_method("PUTDELETE"));
    assert_eq!(Ok(RequestMethod::Get), RequestLine::parse_method("POSTGET"));
    assert_eq!(Ok(RequestMethod::Patch), RequestLine::parse_method("PUTPATCHPOST"));
}

#[test]
fn should_parse_path() {
    let s = "/";
    let result = RequestLine::parse_path(s);

    assert_eq!(result, s);
}

#[test]
fn should_parse_longer_path() {
    let s = "/some/longer/path";
    let result = RequestLine::parse_path(s);

    assert_eq!(result, s);
}

#[test]
fn should_parse_absolute_uri_path() {
    let s = "http://www.example.com/index/asdf";
    let result = RequestLine::parse_path(s);

    assert_eq!(result, s);
}

#[test]
fn should_parse_path_with_query() {
    let s = "/submit-form?user=alice";
    let expected = "/submit-form";
    let result = RequestLine::parse_path(s);

    assert_eq!(result, expected);
}

#[test]
fn should_parse_query_if_present() {
    let s = "/submit-form?user=alice";
    let expected = "user=alice";
    let result = RequestLine::parse_query(s).unwrap();

    assert_eq!(result, expected);
}

#[test]
#[should_panic]
fn should_not_parse_query_if_not_present() {
    let s = "/submit-form";
    RequestLine::parse_query(s).unwrap();
}

#[test]
fn target_without_question_mark_has_no_query() {
    assert_eq!(RequestLine::parse_query("/submit-form"), None);
    assert_eq!(RequestLine::parse_query(""), None);
}

#[test]
fn query_is_everything_after_the_first_question_mark() {
    assert_eq!(RequestLine::parse_query("/a?b=c?d"), Some("b=c?d".to_string()));
    assert_eq!(RequestLine::parse_path("/a?b=c?d"), "/a");
    assert_eq!(RequestLine::parse_query("/a?"), Some(String::new()));
    assert_eq!(RequestLine::parse_path("?x"), "");
}

#[test]
fn from_string_reads_all_four_parts() {
    let line = RequestLine::from_string(&"POST /submit-form?user=alice HTTP/1.1".to_string())
        .unwrap();
    assert_eq!(line.method(), RequestMethod::Post);
    assert_eq!(line.path(), "/submit-form");
    assert_eq!(line.query(), Some(&"user=alice".to_string()));
    assert_eq!(line.http_version(), "HTTP/1.1");
    assert_eq!(line.get_path(), "/submit-form");
}

#[test]
fn from_string_without_query_has_none() {
    let line = RequestLine::from_string(&"GET /index.html HTTP/1.0".to_string()).unwrap();
    assert_eq!(line.method(), RequestMethod::Get);
    assert_eq!(line.path(), "/index.html");
    assert_eq!(line.query(), None);
    assert_eq!(line.http_version(), "HTTP/1.0");
}

#[test]
fn path_and_query_give_the_target_back_for_every_method() {
    let methods = [
        ("DELETE", RequestMethod::Delete),
        ("GET", RequestMethod::Get),
        ("HEAD", RequestMethod::Head),
        ("OPTIONS", RequestMethod::Options),
        ("PATCH", RequestMethod::Patch),
        ("POST", RequestMethod::Post),
        ("PUT", RequestMethod::Put),
    ];
    let targets = ["/", "/a/b", "/a?x=1", "/a?x=1&y=2", "/a?", "?", "/a?b?c", "*"];
    for (name, method) in methods {
        for target in targets {
            let text = format!("{} {} HTTP/1.1", name, target);
            let line = RequestLine::from_string(&text).unwrap();
            assert_eq!(line.method(), method);
            assert!(!line.path().contains('?'));
            let rebuilt = match line.query() {
                Some(query) => format!("{}?{}", line.path(), query),
                None => line.path().clone(),
            };
            assert_eq!(rebuilt, target);
            assert_eq!(line.http_version(), "HTTP/1.1");
        }
    }
}

#[test]
fn fewer_than_three_tokens_is_malformed() {
    for text in ["", "GET", "GET /", "GET/ HTTP/1.1", "ASDF", "ASDF /"] {
        let result = RequestLine::from_string(&text.to_string());
        assert_eq!(Error::MalformedRequestLine, result.unwrap_err());
    }
}

#[test]
fn tokens_after_the_third_are_ignored() {
    let line = RequestLine::from_string(&"GET / HTTP/1.1 extra tokens".to_string()).unwrap();
    assert_eq!(line.http_version(), "HTTP/1.1");
    assert_eq!(line.path(), "/");
}

#[test]
fn two_spaces_make_an_empty_token() {
    let line = RequestLine::from_string(&"GET  / HTTP/1.1".to_string()).unwrap();
    assert_eq!(line.path(), "");
    assert_eq!(line.http_version(), "/");
}

#[test]
fn query_params_of_a_request_line() {
    let line = RequestLine::from_string(&"GET /a?x=1&y=2&x=3 HTTP/1.1".to_string()).unwrap();
    let params = line.get_query_params().unwrap();
    assert_eq!(params.len(), 2);
    assert_eq!(params.get("x"), Some(&"3".to_string()));
    assert_eq!(params.get("y"), Some(&"2".to_string()));
    assert_eq!(params.key_at(0), "x");
    assert_eq!(params.key_at(1), "y");

    let line = RequestLine::from_string(&"GET /a HTTP/1.1".to_string()).unwrap();
    assert!(line.get_query_params().unwrap().is_empty());

    let line = RequestLine::from_string(&"GET /a?x HTTP/1.1".to_string()).unwrap();
    assert_eq!(line.get_query_params().unwrap_err(), Error::MalformedQueryOrBodyParam);
}
