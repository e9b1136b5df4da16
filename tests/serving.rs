use http_server::handler::{Dispatch, HttpRequestHandler};
use http_server::logging::Logging;
use http_server::parser::{ParseError, Parser, ReadStep};
use http_server::request::HttpRequest;
use http_server::response::HttpResponse;
use http_server::router::HttpRouter;
use http_server::server::HttpServer;
use http_server::status::StatusCode;
use std::sync::Arc;

type Handler = fn(HttpRequest) -> HttpResponse;

fn ping(_r: HttpRequest) -> HttpResponse {
    HttpResponse::builder().status_code(StatusCode::OK).body("pong".to_string()).build()
}

fn echo(r: HttpRequest) -> HttpResponse {
    let tag = r.headers.get("Tag").cloned().unwrap_or_default();
    HttpResponse::builder()
        .status_code(StatusCode::OK)
        .header("Tag", &tag)
        .body(r.body)
        .build()
}

fn forgetful(_r: HttpRequest) -> HttpResponse {
    HttpResponse::builder().body("half done".to_string()).build()
}

fn serve(handler: &HttpRequestHandler<Handler>, raw: &str) -> String {
    let parser = Parser::new();
    let parsed = match parser.advance(parser.start(), Some(raw.to_string())) {
        ReadStep::Complete(r) => Ok(r),
        ReadStep::Rejected(e) => Err(e),
        ReadStep::Continue(s) => match parser.advance(s, None) {
            ReadStep::Complete(r) => Ok(r),
            ReadStep::Rejected(e) => Err(e),
            ReadStep::Continue(_) => panic!("reader asked for more after the peer closed"),
        },
    };
    let response = match handler.dispatch(parsed) {
        Dispatch::Respond(r) => r,
        Dispatch::Call(h, req) => h(req),
    };
    handler.get_response_str(&response)
}

fn handler() -> HttpRequestHandler<Handler> {
    let mut router: HttpRouter<Handler> = HttpRouter::new();
    router.get("/ping", ping);
    router.post("/echo", echo);
    router.get("/forgetful", forgetful);
    HttpRequestHandler::new(Arc::new(router))
}

#[test]
fn end_to_end_ping() {
    assert_eq!(
        serve(&handler(), "GET /ping HTTP/1.1\r\n\r\n"),
        "HTTP/1.1 200 OK\r\nContent-Length: 5\r\nConnection: close\r\n\r\npong\n"
    );
}

#[test]
fn end_to_end_not_found() {
    assert_eq!(
        serve(&handler(), "GET /missing HTTP/1.1\r\n\r\n"),
        "HTTP/1.1 404 Not Found\r\nConnection: close\r\n\r\n"
    );
    assert_eq!(
        serve(&handler(), "POST /ping HTTP/1.1\r\n\r\n"),
        "HTTP/1.1 404 Not Found\r\nConnection: close\r\n\r\n"
    );
}

#[test]
fn end_to_end_bad_request() {
    assert_eq!(
        serve(&handler(), "BREW /ping HTTP/1.1\r\n\r\n"),
        "HTTP/1.1 400 Bad Request\r\nConnection: close\r\n\r\n"
    );
}

#[test]
fn end_to_end_echo_sees_headers_and_body() {
    assert_eq!(
        serve(&handler(), "POST /echo HTTP/1.1\r\nTag: t1\r\nContent-Length: 3\r\n\r\nabc"),
        "HTTP/1.1 200 OK\r\nTag: t1\r\nContent-Length: 4\r\nConnection: close\r\n\r\nabc\n"
    );
}

#[test]
fn end_to_end_handler_without_status() {
    assert_eq!(
        serve(&handler(), "GET /forgetful HTTP/1.1\r\n\r\n"),
        "HTTP/1.1 500 Internal Server Error\r\nConnection: close\r\n\r\n"
    );
}

#[test]
fn dispatch_parse_error_is_bad_request() {
    let h = handler();
    match h.dispatch(Err(ParseError::InvalidContentLength)) {
        Dispatch::Respond(r) => {
            assert_eq!(r.status_code, 400);
            assert_eq!(r.body, "");
        }
        Dispatch::Call(_, _) => panic!("a parse error reached a handler"),
    }
}

#[test]
fn logging_switches() {
    let mut h = handler();
    assert!(!h.logging_enabled());
    h.enable_logging();
    assert!(h.logging_enabled());
    h.disable_logging();
    assert!(!h.logging_enabled());
    let mut p = Parser::new();
    p.enable_logging();
    assert!(p.logging_enabled());
    let mut s: HttpServer<Handler> = HttpServer::new(HttpRouter::new());
    assert!(!s.logging_enabled());
    s.enable_logging();
    assert!(s.logging_enabled());
}

#[test]
fn server_shares_its_router() {
    let mut router: HttpRouter<Handler> = HttpRouter::new();
    router.get("/ping", ping);
    let server = HttpServer::new(router);
    let handler = HttpRequestHandler::new(server.router().clone());
    assert_eq!(
        serve(&handler, "GET /ping HTTP/1.1\r\n\r\n"),
        "HTTP/1.1 200 OK\r\nContent-Length: 5\r\nConnection: close\r\n\r\npong\n"
    );
}
