use http_server::method::HttpRequestMethod;
use http_server::parser::{ParseError, Parser, ReadState, ReadStep};
use http_server::request::HttpRequest;

fn read_all(parser: &Parser, chunks: &[&str]) -> Result<HttpRequest, ParseError> {
    let mut state = parser.start();
    for c in chunks {
        match parser.advance(state, Some(c.to_string())) {
            ReadStep::Continue(s) => state = s,
            ReadStep::Complete(r) => return Ok(r),
            ReadStep::Rejected(e) => return Err(e),
        }
    }
    match parser.advance(state, None) {
        ReadStep::Continue(_) => panic!("reader asked for more after the peer closed"),
        ReadStep::Complete(r) => Ok(r),
        ReadStep::Rejected(e) => Err(e),
    }
}

#[test]
fn request_line_known_methods() {
    let parser = Parser::new();
    let cases = [
        ("GET", HttpRequestMethod::GET),
        ("HEAD", HttpRequestMethod::HEAD),
        ("POST", HttpRequestMethod::POST),
        ("PUT", HttpRequestMethod::PUT),
        ("PATCH", HttpRequestMethod::PATCH),
        ("DELETE", HttpRequestMethod::DELETE),
        ("OPTIONS", HttpRequestMethod::OPTIONS),
        ("CONNECT", HttpRequestMethod::CONNECT),
        ("TRACE", HttpRequestMethod::TRACE),
    ];
    for (token, method) in cases {
        let line = format!("{} /path HTTP/1.1", token);
        let rl = parser.parse_request_line(&line);
        assert_eq!(rl.0, method);
        assert_eq!(rl.1, "/path");
        assert_eq!(rl.2, "HTTP/1.1");
        let req = read_all(&parser, &[&format!("{}\r\n\r\n", line)]).unwrap();
        assert_eq!(req.method, method);
        assert_eq!(req.target, "/path");
        assert_eq!(req.version, "HTTP/1.1");
    }
}

#[test]
fn request_line_unknown_method_fails() {
    let parser = Parser::new();
    assert_eq!(parser.parse_request_line("FOO /x HTTP/1.1").0, HttpRequestMethod::UNKNOWN);
    assert_eq!(parser.parse_request_line("get /x HTTP/1.1").0, HttpRequestMethod::UNKNOWN);
    assert_eq!(read_all(&parser, &["FOO /x HTTP/1.1\r\n\r\n"]).err(), Some(ParseError::InvalidMethod));
    assert_eq!(read_all(&parser, &["get /x HTTP/1.1\r\n\r\n"]).err(), Some(ParseError::InvalidMethod));
}

#[test]
fn request_line_missing_parts_are_empty() {
    let parser = Parser::new();
    let rl = parser.parse_request_line("GET");
    assert_eq!(rl.0, HttpRequestMethod::GET);
    assert_eq!(rl.1, "");
    assert_eq!(rl.2, "");
    let rl = parser.parse_request_line("GET /only");
    assert_eq!(rl.1, "/only");
    assert_eq!(rl.2, "");
}

#[test]
fn empty_request_is_invalid() {
    let parser = Parser::new();
    assert_eq!(read_all(&parser, &[]).err(), Some(ParseError::InvalidRequest));
    assert_eq!(read_all(&parser, &["\r\n\r\n"]).err(), Some(ParseError::InvalidRequest));
    assert_eq!(read_all(&parser, &["\r\n\r\n\r\n\r\n"]).err(), Some(ParseError::InvalidRequest));
}

#[test]
fn header_is_trimmed() {
    let parser = Parser::new();
    let req = read_all(&parser, &["GET / HTTP/1.1\r\nKey :  value  \r\n\r\n"]).unwrap();
    assert_eq!(req.headers.get("Key").unwrap(), "value");
    assert_eq!(req.headers.len(), 1);
}

#[test]
fn malformed_header_lines_are_dropped() {
    let parser = Parser::new();
    let text = "GET / HTTP/1.1\r\nNoColon\r\n: value\r\nkey:   \r\n  :  \r\nGood: yes\r\n\r\n";
    let req = read_all(&parser, &[text]).unwrap();
    assert_eq!(req.headers.len(), 1);
    assert_eq!(req.headers.get("Good").unwrap(), "yes");
    assert!(req.headers.get("NoColon").is_none());
    assert!(req.headers.get("key").is_none());
}

#[test]
fn header_splits_at_first_colon_only() {
    let parser = Parser::new();
    let req = read_all(&parser, &["GET / HTTP/1.1\r\nHost: localhost:8080\r\n\r\n"]).unwrap();
    assert_eq!(req.headers.get("Host").unwrap(), "localhost:8080");
}

#[test]
fn duplicate_header_last_wins_and_keys_are_case_sensitive() {
    let parser = Parser::new();
    let text = "GET / HTTP/1.1\r\nX: 1\r\nx: 2\r\nX: 3\r\n\r\n";
    let req = read_all(&parser, &[text]).unwrap();
    assert_eq!(req.headers.get("X").unwrap(), "3");
    assert_eq!(req.headers.get("x").unwrap(), "2");
    assert_eq!(req.headers.len(), 2);
}

#[test]
fn parse_headers_from_index() {
    let parser = Parser::new();
    let lines = vec!["GET / HTTP/1.1".to_string(), "A: b".to_string(), "C:d".to_string()];
    let h = parser.parse_headers(&lines, 1);
    assert_eq!(h.len(), 2);
    assert_eq!(h.get("A").unwrap(), "b");
    assert_eq!(h.get("C").unwrap(), "d");
    assert_eq!(parser.parse_headers(&lines, 7).len(), 0);
}

#[test]
fn body_of_exact_length_needs_no_further_read() {
    let parser = Parser::new();
    let text = "POST /p HTTP/1.1\r\nContent-Length: 3\r\n\r\nabc";
    match parser.advance(parser.start(), Some(text.to_string())) {
        ReadStep::Complete(req) => {
            assert_eq!(req.body, "abc");
            assert_eq!(req.method, HttpRequestMethod::POST);
        }
        _ => panic!("expected a complete request"),
    }
}

#[test]
fn short_body_waits_for_more() {
    let parser = Parser::new();
    let text = "POST /p HTTP/1.1\r\nContent-Length: 5\r\n\r\nab";
    let state = match parser.advance(parser.start(), Some(text.to_string())) {
        ReadStep::Continue(s) => s,
        _ => panic!("expected the reader to wait"),
    };
    assert!(matches!(state, ReadState::Body(_)));
    let state = match parser.advance(state, Some("c".to_string())) {
        ReadStep::Continue(s) => s,
        _ => panic!("expected the reader to wait"),
    };
    match parser.advance(state, Some("de".to_string())) {
        ReadStep::Complete(req) => assert_eq!(req.body, "abcde"),
        _ => panic!("expected a complete request"),
    }
}

#[test]
fn body_is_read_after_head_split_across_reads() {
    let parser = Parser::new();
    let req = read_all(
        &parser,
        &["PUT /x HT", "TP/1.1\r\nContent-", "Length: 4\r", "\n\r\n", "wx", "yz"],
    )
    .unwrap();
    assert_eq!(req.method, HttpRequestMethod::PUT);
    assert_eq!(req.version, "HTTP/1.1");
    assert_eq!(req.body, "wxyz");
}

#[test]
fn incomplete_head_is_kept() {
    let parser = Parser::new();
    match parser.advance(parser.start(), Some("GET / HTT".to_string())) {
        ReadStep::Continue(ReadState::Head(t)) => assert_eq!(t, "GET / HTT"),
        _ => panic!("expected the head to be kept"),
    }
}

#[test]
fn closed_before_separator_parses_what_came() {
    let parser = Parser::new();
    let req = read_all(&parser, &["GET /x HTTP/1.1"]).unwrap();
    assert_eq!(req.target, "/x");
    assert_eq!(req.body, "");
}

#[test]
fn no_content_length_means_empty_body() {
    let parser = Parser::new();
    let req = read_all(&parser, &["GET / HTTP/1.1\r\n\r\nextra"]).unwrap();
    assert_eq!(req.body, "");
    let req = read_all(&parser, &["GET / HTTP/1.1\r\nContent-Length: 0\r\n\r\nextra"]).unwrap();
    assert_eq!(req.body, "");
}

#[test]
fn invalid_content_length_is_rejected() {
    let parser = Parser::new();
    let e = read_all(&parser, &["POST / HTTP/1.1\r\nContent-Length: abc\r\n\r\n"]).err();
    assert_eq!(e, Some(ParseError::InvalidContentLength));
    let e = read_all(&parser, &["POST / HTTP/1.1\r\nContent-Length: -1\r\n\r\n"]).err();
    assert_eq!(e, Some(ParseError::InvalidContentLength));
    let e = read_all(&parser, &["POST / HTTP/1.1\r\nContent-Length: 4294967296\r\n\r\n"]).err();
    assert_eq!(e, Some(ParseError::InvalidContentLength));
}

#[test]
fn content_length_with_plus_sign() {
    let parser = Parser::new();
    let req = read_all(&parser, &["POST / HTTP/1.1\r\nContent-Length: +2\r\n\r\nok"]).unwrap();
    assert_eq!(req.body, "ok");
}

#[test]
fn peer_closing_mid_body_keeps_waiting() {
    let parser = Parser::new();
    let text = "POST / HTTP/1.1\r\nContent-Length: 10\r\n\r\nab";
    let state = match parser.advance(parser.start(), Some(text.to_string())) {
        ReadStep::Continue(s) => s,
        _ => panic!("expected the reader to wait"),
    };
    match parser.advance(state, None) {
        ReadStep::Continue(ReadState::Body(h)) => {
            assert_eq!(h.body, "ab");
            assert_eq!(h.content_length, 10);
        }
        _ => panic!("expected the reader to keep waiting for the body"),
    }
}

#[test]
fn leading_empty_segments_are_skipped() {
    let parser = Parser::new();
    let req = read_all(&parser, &["\r\n\r\n\r\n\r\nGET /late HTTP/1.1\r\nA: b\r\n\r\n"]).unwrap();
    assert_eq!(req.method, HttpRequestMethod::GET);
    assert_eq!(req.target, "/late");
    assert_eq!(req.headers.get("A").unwrap(), "b");
}

#[test]
fn last_head_line_keeps_lone_carriage_return() {
    let parser = Parser::new();
    let req = read_all(&parser, &["GET / X\r\r\n\r\n"]).unwrap();
    assert_eq!(req.version, "X\r");
    let lines = http_server::parser::split_head_lines("a\r\nb\r");
    assert_eq!(lines, vec!["a".to_string(), "b\r".to_string()]);
}

#[test]
fn parse_head_reports_parts() {
    let parser = Parser::new();
    let h = parser
        .parse_head("DELETE /item/7 HTTP/1.0\r\nContent-Length: 2\r\nA: b\r\n\r\nxy")
        .ok()
        .unwrap();
    assert_eq!(h.method, HttpRequestMethod::DELETE);
    assert_eq!(h.target, "/item/7");
    assert_eq!(h.version, "HTTP/1.0");
    assert_eq!(h.content_length, 2);
    assert_eq!(h.body, "xy");
    assert_eq!(h.headers.len(), 2);
}

#[test]
fn split_head_lines_strips_carriage_returns() {
    let lines = http_server::parser::split_head_lines("a\r\nb\nc\r\n");
    assert_eq!(lines, vec!["a".to_string(), "b".to_string(), "c".to_string()]);
    assert!(http_server::parser::split_head_lines("").is_empty());
}

#[test]
fn content_length_is_measured_in_bytes() {
    let parser = Parser::new();
    let text = "POST / HTTP/1.1\r\nContent-Length: 2\r\n\r\né";
    match parser.advance(parser.start(), Some(text.to_string())) {
        ReadStep::Complete(req) => assert_eq!(req.body, "é"),
        _ => panic!("expected a complete request"),
    }
    let text = "POST / HTTP/1.1\r\nContent-Length: 3\r\n\r\né";
    assert!(matches!(parser.advance(parser.start(), Some(text.to_string())), ReadStep::Continue(_)));
}
