use http_server::handler::HttpRequestHandler;
use http_server::headers::HeaderMap;
use http_server::response::HttpResponse;
use http_server::router::HttpRouter;
use http_server::status::StatusCode;
use std::sync::Arc;

fn wire(response: &HttpResponse) -> String {
    let router: HttpRouter<u8> = HttpRouter::new();
    HttpRequestHandler::new(Arc::new(router)).get_response_str(response)
}

#[test]
fn serialize_ok_with_body() {
    let response = HttpResponse {
        protocol: "HTTP/1.1".to_string(),
        status_code: 200,
        body: "hi".to_string(),
        reason: "OK".to_string(),
        headers: HeaderMap::new(),
    };
    assert_eq!(wire(&response), "HTTP/1.1 200 OK\r\nContent-Length: 3\r\nConnection: close\r\n\r\nhi\n");
}

#[test]
fn built_response_serializes_with_header() {
    let response = HttpResponse::builder()
        .status_code(StatusCode::Created)
        .header("X-Id", "42")
        .body("made".to_string())
        .build();
    assert_eq!(response.status_code, 201);
    assert_eq!(response.reason, "Created");
    assert_eq!(
        wire(&response),
        "HTTP/1.1 201 Created\r\nX-Id: 42\r\nContent-Length: 5\r\nConnection: close\r\n\r\nmade\n"
    );
}

#[test]
fn headers_are_written_once_each() {
    let response = HttpResponse::builder()
        .status_code(StatusCode::OK)
        .header("A", "1")
        .header("B", "2")
        .header("A", "3")
        .build();
    assert_eq!(response.headers.len(), 2);
    assert_eq!(wire(&response), "HTTP/1.1 200 OK\r\nA: 3\r\nB: 2\r\nConnection: close\r\n\r\n");
}

#[test]
fn unset_status_is_internal_error_without_content() {
    let response = HttpResponse::builder()
        .body("secret".to_string())
        .header("X", "y")
        .build();
    assert_eq!(response.status_code, 500);
    assert_eq!(response.reason, "Internal Server Error");
    assert_eq!(response.body, "");
    assert!(response.headers.is_empty());
    assert_eq!(wire(&response), "HTTP/1.1 500 Internal Server Error\r\nConnection: close\r\n\r\n");
}

#[test]
fn explicit_internal_error_drops_content_too() {
    let mut builder = HttpResponse::builder();
    builder.status_code(StatusCode::InternalServerError).body("x".to_string()).header("K", "v");
    let response = builder.build();
    assert_eq!(response.body, "");
    assert!(response.headers.is_empty());
    let again = builder.get().build();
    assert_eq!(again.body, "");
}

#[test]
fn protocol_can_be_set() {
    let response = HttpResponse::builder()
        .protocol("HTTP/1.0".to_string())
        .status_code(StatusCode::NoContent)
        .build();
    assert_eq!(wire(&response), "HTTP/1.0 204 No Content\r\nConnection: close\r\n\r\n");
}

#[test]
fn builder_copy_is_independent() {
    let mut builder = HttpResponse::builder();
    builder.status_code(StatusCode::OK).body("a".to_string());
    let mut copy = builder.get();
    copy.body("b".to_string());
    assert_eq!(builder.build().body, "a");
    assert_eq!(copy.build().body, "b");
}

#[test]
fn content_length_counts_characters_plus_one() {
    let response = HttpResponse::builder()
        .status_code(StatusCode::OK)
        .body("0123456789".to_string())
        .build();
    assert_eq!(
        wire(&response),
        "HTTP/1.1 200 OK\r\nContent-Length: 11\r\nConnection: close\r\n\r\n0123456789\n"
    );
}

#[test]
fn status_codes_and_reasons() {
    assert_eq!(StatusCode::OK.code(), 200);
    assert_eq!(StatusCode::OK.reason(), "OK");
    assert_eq!(StatusCode::BadRequest.code(), 400);
    assert_eq!(StatusCode::BadRequest.reason(), "Bad Request");
    assert_eq!(StatusCode::NotFound.code(), 404);
    assert_eq!(StatusCode::NotFound.reason(), "Not Found");
    assert_eq!(StatusCode::InternalServerError.code(), 500);
    assert_eq!(StatusCode::ServiceUnavailable.reason(), "Service Unavailable");
}

#[test]
fn header_map_insert_get_clear() {
    let mut h = HeaderMap::new();
    assert!(h.is_empty());
    h.insert("K".to_string(), "1".to_string());
    h.insert("L".to_string(), "2".to_string());
    h.insert("K".to_string(), "3".to_string());
    assert_eq!(h.len(), 2);
    assert_eq!(h.key_at(0), "K");
    assert_eq!(h.value_at(0), "3");
    assert_eq!(h.get("L").unwrap(), "2");
    assert!(h.get("k").is_none());
    let d = h.duplicate();
    h.clear();
    assert!(h.is_empty());
    assert_eq!(d.len(), 2);
}

#[test]
fn builder_error_text() {
    let e = http_server::response::HttpResponseBuilderError::new("no status".to_string());
    assert_eq!(e.to_string(), "Cannot build HttpResponse: no status");
}

#[test]
fn content_length_counts_utf8_bytes() {
    let response = HttpResponse::builder()
        .status_code(StatusCode::OK)
        .body("é".to_string())
        .build();
    assert_eq!(
        wire(&response),
        "HTTP/1.1 200 OK\r\nContent-Length: 3\r\nConnection: close\r\n\r\né\n"
    );
}
