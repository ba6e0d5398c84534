use oxhttp::{parse_request, ParseError, Request};

#[test]
fn parses_full_request() {
    let raw = "GET /users/42 HTTP/1.1\r\nHost: localhost\r\nAccept: text/html\r\n\r\nbody text";
    let req = parse_request(raw).unwrap();
    assert_eq!(req.method, "GET");
    assert_eq!(req.url, "/users/42");
    assert_eq!(
        req.headers,
        vec![
            ("Host".to_string(), "localhost".to_string()),
            ("Accept".to_string(), "text/html".to_string()),
        ]
    );
    assert_eq!(req.body, "body text");
}

#[test]
fn parses_request_without_headers_or_body() {
    let req = parse_request("GET / HTTP/1.1\r\n\r\n").unwrap();
    assert_eq!(req.method, "GET");
    assert_eq!(req.url, "/");
    assert!(req.headers.is_empty());
    assert_eq!(req.body, "");
}

#[test]
fn parses_bare_request_line() {
    let req = parse_request("POST /submit HTTP/1.1").unwrap();
    assert_eq!(req.method, "POST");
    assert_eq!(req.url, "/submit");
    assert!(req.headers.is_empty());
    assert_eq!(req.body, "");
}

#[test]
fn tolerates_repeated_spaces_in_request_line() {
    let req = parse_request("GET   /a   HTTP/1.1\r\n\r\n").unwrap();
    assert_eq!(req.method, "GET");
    assert_eq!(req.url, "/a");
}

#[test]
fn rejects_short_request_line() {
    assert!(matches!(parse_request("GET /"), Err(ParseError::RequestLine)));
    assert!(matches!(parse_request(""), Err(ParseError::RequestLine)));
    assert!(matches!(parse_request("GET\r\n\r\n"), Err(ParseError::RequestLine)));
}

#[test]
fn rejects_header_without_colon() {
    let raw = "GET / HTTP/1.1\r\nNoColonHere\r\n\r\n";
    assert!(matches!(parse_request(raw), Err(ParseError::Header)));
}

#[test]
fn strips_leading_spaces_of_header_values() {
    let raw = "GET / HTTP/1.1\r\nHost:    spaced.example\r\n\r\n";
    let req = parse_request(raw).unwrap();
    assert_eq!(req.headers, vec![("Host".to_string(), "spaced.example".to_string())]);
}

#[test]
fn keeps_crlf_inside_body() {
    let raw = "GET / HTTP/1.1\r\nA: b\r\n\r\nline one\r\nline two";
    let req = parse_request(raw).unwrap();
    assert_eq!(req.body, "line one\r\nline two");
}

#[test]
fn request_accessors_return_parts() {
    let req = Request::new(
        "PUT".to_string(),
        "/a/b?x=1&y=2".to_string(),
        vec![("K".to_string(), "v".to_string())],
        "payload".to_string(),
    );
    assert_eq!(req.method(), "PUT");
    assert_eq!(req.url(), "/a/b?x=1&y=2");
    assert_eq!(req.headers(), vec![("K".to_string(), "v".to_string())]);
    assert_eq!(req.path(), "/a/b");
    assert_eq!(req.query(), Some("x=1&y=2".to_string()));
}

#[test]
fn query_absent_without_question_mark() {
    let req = Request::new("GET".to_string(), "/plain".to_string(), vec![], String::new());
    assert_eq!(req.path(), "/plain");
    assert_eq!(req.query(), None);
}

#[test]
fn request_clone_preserves_parts() {
    let req = Request::new(
        "GET".to_string(),
        "/x".to_string(),
        vec![("A".to_string(), "1".to_string())],
        "b".to_string(),
    );
    let copy = req.clone();
    assert_eq!(copy.method, req.method);
    assert_eq!(copy.url, req.url);
    assert_eq!(copy.headers, req.headers);
    assert_eq!(copy.body, req.body);
}
