use nanofish::{find_double_crlf, HeaderList, HttpError, HttpHeader, HttpMethod, HttpRequest};

#[test]
fn test_parse_request_get() {
    let request_str = "GET /index.html HTTP/1.1\r\nHost: example.com\r\nUser-Agent: test\r\n\r\n";
    let body = b"";

    let request = HttpRequest::parse_from(request_str, body).unwrap();

    assert_eq!(request.method, HttpMethod::GET);
    assert_eq!(request.path, b"/index.html");
    assert_eq!(request.version, b"HTTP/1.1");
    assert_eq!(request.headers.len(), 2);
    assert_eq!(request.body, b"");
}

#[test]
fn test_parse_request_post_with_body() {
    let request_str =
        "POST /api/data HTTP/1.1\r\nContent-Type: application/json\r\nContent-Length: 13\r\n\r\n";
    let body = b"{\"key\":\"value\"}";

    let request = HttpRequest::parse_from(request_str, body).unwrap();

    assert_eq!(request.method, HttpMethod::POST);
    assert_eq!(request.path, b"/api/data");
    assert_eq!(request.version, b"HTTP/1.1");
    assert_eq!(request.headers.len(), 2);
    assert_eq!(request.body, b"{\"key\":\"value\"}");

    // Check specific headers
    let content_type = request.headers.find(b"Content-Type").unwrap();
    assert_eq!(content_type.as_slice(), b"application/json");
}

#[test]
fn test_parse_request_invalid_method() {
    let request_str = "INVALID /path HTTP/1.1\r\n\r\n";
    let body = b"";

    let result = HttpRequest::parse_from(request_str, body);
    assert!(result.is_err());
    assert_eq!(result.err(), Some(HttpError::UnknownMethod));
}

#[test]
fn test_parse_request_missing_parts() {
    // Missing path
    let request_str = "GET HTTP/1.1\r\n\r\n";
    let body = b"";
    let result = HttpRequest::parse_from(request_str, body);
    assert!(result.is_err());

    // Missing version
    let request_str = "GET /path\r\n\r\n";
    let result = HttpRequest::parse_from(request_str, body);
    assert!(result.is_err());

    // Empty request
    let request_str = "";
    let result = HttpRequest::parse_from(request_str, body);
    assert!(result.is_err());
}

#[test]
fn test_missing_tokens_fail_distinctly() {
    // Empty input, a lone method, and method plus path each fail with their
    // own error.
    assert_eq!(
        HttpRequest::parse_from("", b"").err(),
        Some(HttpError::MissingRequestLine)
    );
    assert_eq!(
        HttpRequest::parse_from("GET", b"").err(),
        Some(HttpError::MissingPath)
    );
    assert_eq!(
        HttpRequest::parse_from("GET /path", b"").err(),
        Some(HttpError::MissingVersion)
    );
    assert_eq!(
        HttpRequest::parse_from("   ", b"").err(),
        Some(HttpError::MissingMethod)
    );
}

#[test]
fn test_parse_request_all_http_methods() {
    let methods = [
        ("GET", HttpMethod::GET),
        ("POST", HttpMethod::POST),
        ("PUT", HttpMethod::PUT),
        ("DELETE", HttpMethod::DELETE),
        ("PATCH", HttpMethod::PATCH),
        ("HEAD", HttpMethod::HEAD),
        ("OPTIONS", HttpMethod::OPTIONS),
        ("TRACE", HttpMethod::TRACE),
        ("CONNECT", HttpMethod::CONNECT),
    ];

    for (method_str, expected_method) in &methods {
        let request_str = format!("{method_str} /path HTTP/1.1\r\n\r\n");
        let request = HttpRequest::parse_from(&request_str, b"").unwrap();
        assert_eq!(request.method, *expected_method);
    }
}

#[test]
fn test_find_double_crlf() {
    // Normal case
    let data = b"GET / HTTP/1.1\r\nHost: example.com\r\n\r\nBody";
    assert_eq!(find_double_crlf(data), Some(33));

    // At the beginning
    let data = b"\r\n\r\nBody";
    assert_eq!(find_double_crlf(data), Some(0));

    // At the end
    let data = b"Headers\r\n\r\n";
    assert_eq!(find_double_crlf(data), Some(7));

    // Not found
    let data = b"GET / HTTP/1.1\r\nHost: example.com\r\n";
    assert_eq!(find_double_crlf(data), None);

    // Too short
    let data = b"\r\n\r";
    assert_eq!(find_double_crlf(data), None);

    // Empty
    let data = b"";
    assert_eq!(find_double_crlf(data), None);
}

#[test]
fn test_try_from_complete_request() {
    let buffer = b"GET /index.html HTTP/1.1\r\nHost: example.com\r\nUser-Agent: test\r\n\r\n";

    let request = HttpRequest::try_from(buffer.as_slice()).unwrap();

    assert_eq!(request.method, HttpMethod::GET);
    assert_eq!(request.path, b"/index.html");
    assert_eq!(request.version, b"HTTP/1.1");
    assert_eq!(request.headers.len(), 2);
    assert_eq!(request.body, b"");
}

#[test]
fn test_try_from_request_with_body() {
    let buffer =
        b"POST /api/data HTTP/1.1\r\nContent-Type: application/json\r\n\r\n{\"key\":\"value\"}";

    let request = HttpRequest::try_from(buffer.as_slice()).unwrap();

    assert_eq!(request.method, HttpMethod::POST);
    assert_eq!(request.path, b"/api/data");
    assert_eq!(request.version, b"HTTP/1.1");
    assert_eq!(request.headers.len(), 1);
    assert_eq!(request.body, b"{\"key\":\"value\"}");
}

#[test]
fn test_try_from_incomplete_headers() {
    let buffer = b"GET /index.html HTTP/1.1\r\nHost: example.com\r\n";

    let result = HttpRequest::try_from(buffer.as_slice());
    assert!(result.is_err());
    assert_eq!(result.err(), Some(HttpError::IncompleteHeaders));
}

#[test]
fn test_try_from_invalid_utf8() {
    // Create a buffer with invalid UTF-8 in the headers
    let mut buffer: Vec<u8> = Vec::new();
    buffer.extend_from_slice(b"GET /index.html HTTP/1.1\r\nHost: ");
    buffer.push(0xFF); // Invalid UTF-8
    buffer.extend_from_slice(b"\r\n\r\n");

    let result = HttpRequest::try_from(buffer.as_slice());
    assert!(result.is_err());
    assert_eq!(result.err(), Some(HttpError::InvalidEncoding));
}

#[test]
fn test_request_round_trip() {
    // Building a request from its parts and parsing the bytes back gives
    // the same parts.
    let mut headers = HeaderList::new();
    headers.push(HttpHeader::new(b"Host", b"example.com")).unwrap();
    headers.push(HttpHeader::new(b"User-Agent", b"test")).unwrap();
    let request = HttpRequest {
        method: HttpMethod::POST,
        path: b"/api/data".to_vec(),
        version: b"HTTP/1.1".to_vec(),
        headers,
        body: b"payload bytes".to_vec(),
    };

    let bytes = request.build_bytes::<4096>().unwrap();
    let parsed = HttpRequest::try_from(bytes.as_slice()).unwrap();

    assert_eq!(parsed.method, HttpMethod::POST);
    assert_eq!(parsed.path, b"/api/data");
    assert_eq!(parsed.version, b"HTTP/1.1");
    assert_eq!(parsed.headers.len(), 2);
    assert_eq!(parsed.headers.get(0).unwrap().name, b"Host");
    assert_eq!(parsed.headers.get(0).unwrap().value, b"example.com");
    assert_eq!(parsed.headers.get(1).unwrap().name, b"User-Agent");
    assert_eq!(parsed.headers.get(1).unwrap().value, b"test");
    assert_eq!(parsed.body, b"payload bytes");
}

#[test]
fn test_build_request_overflow() {
    let request = HttpRequest {
        method: HttpMethod::GET,
        path: b"/index.html".to_vec(),
        version: b"HTTP/1.1".to_vec(),
        headers: HeaderList::new(),
        body: Vec::new(),
    };

    let result = request.build_bytes::<8>();
    assert_eq!(result.err(), Some(HttpError::BufferOverflow));
}
