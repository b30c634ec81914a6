use webserver::controllers::index_controller::IndexController;
use webserver::error::Error;
use webserver::registry::Registry;
use webserver::response::status_line::StatusLine;
use webserver::response::Response;
use webserver::{dispatch, handle_client};

fn index() -> Response {
    IndexController::action_index("<h1>Hello</h1>".to_string(), 784111777)
}

fn teapot() -> Response {
    Response::builder()
        .status_line(StatusLine::from_str("HTTP/1.1 418 I'm a teapot"))
        .header("Date", "d")
        .header("Content-Type", "text/plain")
        .build()
        .unwrap()
}

fn registry_with_index() -> Registry<fn() -> Response> {
    let mut registry: Registry<fn() -> Response> = Registry::new();
    registry.init(index);
    registry
}

#[test]
fn new_registry_resolves_nothing() {
    let registry: Registry<fn() -> Response> = Registry::new();
    assert!(registry.get("/").is_none());
    assert!(registry.get("").is_none());
}

#[test]
fn only_registered_paths_resolve() {
    let registry = registry_with_index();
    assert!(registry.get("/").is_some());
    assert!(registry.get("/other").is_none());
    assert!(registry.get("").is_none());
    assert!(registry.get("//").is_none());
    assert!(registry.get("/?").is_none());
}

#[test]
fn last_registration_wins() {
    let mut registry = registry_with_index();
    registry.register("/tea", index);
    registry.register("/tea", teapot);
    let handler = registry.get("/tea").unwrap();
    assert_eq!(handler().status_line().as_string(), "HTTP/1.1 418 I'm a teapot");
    let handler = registry.get("/").unwrap();
    assert_eq!(handler().status_line().as_string(), "HTTP/1.1 200 OK");
    registry.init(teapot);
    let handler = registry.get("/").unwrap();
    assert_eq!(handler().status_line().as_string(), "HTTP/1.1 418 I'm a teapot");
}

#[test]
fn index_page_response() {
    let response = index();
    assert_eq!(
        response.as_bytes(),
        b"HTTP/1.1 200 OK\r\nDate: Sun, 06 Nov 1994 08:49:37 GMT\r\nContent-Length: 14\r\nContent-Type: text/html\r\n\r\n<h1>Hello</h1>".to_vec()
    );
    let response = IndexController::action_index("h\u{e9}".to_string(), 0);
    assert_eq!(response.headers().get("Content-Length"), Some(&"3".to_string()));
    let response = IndexController::action_index(String::new(), 0);
    assert_eq!(response.headers().get("Content-Length"), Some(&"0".to_string()));
    assert_eq!(response.body(), Some(&String::new()));
}

#[test]
fn dispatch_calls_the_handler_or_answers_not_found() {
    let registry = registry_with_index();
    let response = dispatch(&registry, "/", 0);
    assert_eq!(response.as_bytes(), index().as_bytes());

    let response = dispatch(&registry, "/other", 784111777);
    assert_eq!(
        response.as_bytes(),
        Response::builder()._404(784111777).build().unwrap().as_bytes()
    );
    assert_eq!(response.status_line().as_string(), "HTTP/1.1 404 Not Found");
}

#[test]
fn handle_client_answers_a_request() {
    let registry = registry_with_index();
    let bytes = handle_client(b"GET / HTTP/1.1\r\nHost: a\r\n\r\n", &registry, 0).unwrap();
    assert_eq!(bytes, index().as_bytes());

    let bytes = handle_client(b"GET /?x=1 HTTP/1.1\r\n\r\n", &registry, 0).unwrap();
    assert_eq!(bytes, index().as_bytes());

    let bytes = handle_client(b"DELETE /other HTTP/1.1\r\n\r\n", &registry, 784111777).unwrap();
    assert_eq!(
        bytes,
        b"HTTP/1.1 404 Not Found\r\nDate: Sun, 06 Nov 1994 08:49:37 GMT\r\nContent-Type: text/html\r\nContent-Length: 0\r\n\r\n".to_vec()
    );
}

#[test]
fn handle_client_reports_what_does_not_parse() {
    let registry = registry_with_index();
    assert_eq!(handle_client(b"", &registry, 0).unwrap_err(), Error::MalformedRequestLine);
    assert_eq!(
        handle_client(b"ASDF / HTTP/1.1\r\n\r\n", &registry, 0).unwrap_err(),
        Error::UnknownMethod
    );
    assert_eq!(
        handle_client(b"POST / HTTP/1.1\r\nContent-Length: 10\r\n\r\nabc", &registry, 0)
            .unwrap_err(),
        Error::TruncatedBody
    );
}
