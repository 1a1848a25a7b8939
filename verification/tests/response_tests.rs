use nanofish::response::{write_decimal_to_buffer, write_status_line};
use nanofish::{
    HeaderList, HttpError, HttpHeader, HttpResponse, InvalidStatusCode, ParsedResponse,
    ResponseBody, StatusCode,
};

#[test]
fn test_response_body_as_str_and_bytes() {
    let text = ResponseBody::Text("hello".to_string());
    assert_eq!(text.as_str(), Some("hello"));
    assert_eq!(text.as_bytes(), b"hello");
    let bin = ResponseBody::Binary(b"bin".to_vec());
    assert_eq!(bin.as_str(), Some("bin"));
    assert_eq!(bin.as_bytes(), b"bin");
    let empty = ResponseBody::Empty;
    assert_eq!(empty.as_str(), Some(""));
    assert_eq!(empty.as_bytes(), b"");
}

#[test]
fn test_response_body_is_empty_and_len() {
    let text = ResponseBody::Text("".to_string());
    assert!(text.is_empty());
    assert_eq!(text.len(), 0);
    let bin = ResponseBody::Binary(b"".to_vec());
    assert!(bin.is_empty());
    assert_eq!(bin.len(), 0);
    let nonempty = ResponseBody::Text("abc".to_string());
    assert!(!nonempty.is_empty());
    assert_eq!(nonempty.len(), 3);
}

#[test]
fn test_binary_body_invalid_utf8_as_str() {
    let bin = ResponseBody::Binary(vec![0xFF, 0xFE]);
    assert_eq!(bin.as_str(), None);
    assert_eq!(bin.as_bytes(), [0xFF, 0xFE]);
}

#[test]
fn test_http_response_get_header() {
    let mut headers = HeaderList::new();
    headers
        .push(HttpHeader::new(b"Content-Type", b"text/plain"))
        .unwrap();
    let resp = HttpResponse {
        status_code: StatusCode::OK,
        headers,
        body: ResponseBody::Empty,
    };
    assert_eq!(resp.get_header(b"content-type"), Some(b"text/plain".as_slice()));
    assert_eq!(resp.get_header(b"missing"), None);
}

#[test]
fn test_http_response_content_type_and_length() {
    let mut headers = HeaderList::new();
    headers
        .push(HttpHeader::new(b"Content-Type", b"text/plain"))
        .unwrap();
    headers
        .push(HttpHeader::new(b"Content-Length", b"42"))
        .unwrap();
    let resp = HttpResponse {
        status_code: StatusCode::OK,
        headers,
        body: ResponseBody::Empty,
    };
    assert_eq!(resp.content_type(), Some(b"text/plain".as_slice()));
    assert_eq!(resp.content_length(), Some(42));

    let mut bad = HeaderList::new();
    bad.push(HttpHeader::new(b"Content-Length", b"abc")).unwrap();
    let resp = HttpResponse {
        status_code: StatusCode::OK,
        headers: bad,
        body: ResponseBody::Empty,
    };
    assert_eq!(resp.content_length(), None);
}

#[test]
fn test_status_classification() {
    let ok = HttpResponse {
        status_code: StatusCode::OK,
        headers: HeaderList::new(),
        body: ResponseBody::Empty,
    };
    assert!(ok.is_success());
    assert!(!ok.is_client_error());
    assert!(!ok.is_server_error());
    let not_found = HttpResponse {
        status_code: StatusCode::NotFound,
        headers: HeaderList::new(),
        body: ResponseBody::Empty,
    };
    assert!(!not_found.is_success());
    assert!(not_found.is_client_error());
    assert!(!not_found.is_server_error());
    let bad_gateway = HttpResponse {
        status_code: StatusCode::BadGateway,
        headers: HeaderList::new(),
        body: ResponseBody::Empty,
    };
    assert!(!bad_gateway.is_success());
    assert!(!bad_gateway.is_client_error());
    assert!(bad_gateway.is_server_error());
}

#[test]
fn test_build_http_response_ok() {
    let mut headers = HeaderList::new();
    let _ = headers.push(HttpHeader::new(b"Content-Type", b"text/html"));
    let _ = headers.push(HttpHeader::new(b"Content-Length", b"12"));

    let response = HttpResponse {
        status_code: StatusCode::OK,
        headers,
        body: ResponseBody::Text("Hello World!".to_string()),
    };

    let bytes = response.build_bytes::<4096>().unwrap();
    let response_str = core::str::from_utf8(&bytes).unwrap();

    assert!(response_str.starts_with("HTTP/1.1 200 OK\r\n"));
    assert!(response_str.contains("Content-Type: text/html\r\n"));
    assert!(response_str.contains("Content-Length: 12\r\n"));
    assert!(response_str.ends_with("Hello World!"));
}

#[test]
fn test_build_http_response_not_found() {
    let response = HttpResponse {
        status_code: StatusCode::NotFound,
        headers: HeaderList::new(),
        body: ResponseBody::Text("Not Found".to_string()),
    };

    let bytes = response.build_bytes::<4096>().unwrap();
    let response_str = core::str::from_utf8(&bytes).unwrap();

    assert!(response_str.starts_with("HTTP/1.1 404 Not Found\r\n"));
    assert!(response_str.contains("Content-Length: 9\r\n"));
    assert!(response_str.ends_with("Not Found"));
}

#[test]
fn test_build_http_response_empty_body() {
    let response = HttpResponse {
        status_code: StatusCode::NoContent,
        headers: HeaderList::new(),
        body: ResponseBody::Empty,
    };

    let bytes = response.build_bytes::<4096>().unwrap();
    let response_str = core::str::from_utf8(&bytes).unwrap();

    assert!(response_str.starts_with("HTTP/1.1 204 No Content\r\n"));
    assert!(!response_str.contains("Content-Length"));
    assert!(response_str.ends_with("\r\n\r\n"));
}

#[test]
fn test_build_http_response_binary_body() {
    let binary_data = b"\x00\x01\x02\x03";
    let response = HttpResponse {
        status_code: StatusCode::OK,
        headers: HeaderList::new(),
        body: ResponseBody::Binary(binary_data.to_vec()),
    };

    let bytes = response.build_bytes::<4096>().unwrap();

    // The response ends with the binary data
    assert!(bytes.ends_with(binary_data));

    // The content length is correct
    let response_str = core::str::from_utf8(&bytes[..bytes.len() - binary_data.len()]).unwrap();
    assert!(response_str.contains("Content-Length: 4\r\n"));
}

#[test]
fn test_build_http_response_overflow() {
    let response = HttpResponse {
        status_code: StatusCode::OK,
        headers: HeaderList::new(),
        body: ResponseBody::Text("Hello World!".to_string()),
    };

    let result = response.build_bytes::<16>();
    assert_eq!(result.err(), Some(HttpError::BufferOverflow));
}

#[test]
fn test_write_decimal_to_buffer() {
    let mut bytes: Vec<u8> = Vec::new();

    // Zero
    write_decimal_to_buffer(&mut bytes, 0);
    assert_eq!(bytes, b"0");

    // Single digit
    bytes.clear();
    write_decimal_to_buffer(&mut bytes, 5);
    assert_eq!(bytes, b"5");

    // Multi-digit numbers
    bytes.clear();
    write_decimal_to_buffer(&mut bytes, 42);
    assert_eq!(bytes, b"42");

    bytes.clear();
    write_decimal_to_buffer(&mut bytes, 123);
    assert_eq!(bytes, b"123");

    bytes.clear();
    write_decimal_to_buffer(&mut bytes, 9999);
    assert_eq!(bytes, b"9999");
}

#[test]
fn test_write_status_line() {
    let mut bytes: Vec<u8> = Vec::new();

    // Common status codes
    write_status_line(&mut bytes, StatusCode::OK);
    assert_eq!(bytes, b"HTTP/1.1 200 OK\r\n");

    bytes.clear();
    write_status_line(&mut bytes, StatusCode::NotFound);
    assert_eq!(bytes, b"HTTP/1.1 404 Not Found\r\n");

    bytes.clear();
    write_status_line(&mut bytes, StatusCode::InternalServerError);
    assert_eq!(bytes, b"HTTP/1.1 500 Internal Server Error\r\n");

    bytes.clear();
    write_status_line(&mut bytes, StatusCode::Created);
    assert_eq!(bytes, b"HTTP/1.1 201 Created\r\n");
}

#[test]
fn test_content_length_calculation() {
    let long_text_a = "A".repeat(100);
    let long_text_b = "B".repeat(999);
    let test_cases = [
        ("", 0),
        ("a", 1),
        ("hello", 5),
        ("0123456789", 10),
        ("Lorem ipsum dolor sit amet", 26),
        (long_text_a.as_str(), 100),
        (long_text_b.as_str(), 999),
    ];

    for (body_text, expected_len) in &test_cases {
        let response = HttpResponse {
            status_code: StatusCode::OK,
            headers: HeaderList::new(),
            body: ResponseBody::Text(body_text.to_string()),
        };

        let bytes = response.build_bytes::<4096>().unwrap();
        let response_str = core::str::from_utf8(&bytes).unwrap();

        if *expected_len > 0 {
            let expected_header = format!("Content-Length: {expected_len}\r\n");
            assert!(
                response_str.contains(&expected_header),
                "Expected '{expected_header}' in response for body length {expected_len}"
            );
        }
    }
}

#[test]
fn test_parse_response_ok() {
    let buffer = b"HTTP/1.1 200 OK\r\nContent-Type: text/plain\r\n\r\nhello";
    let resp = ParsedResponse::try_from(buffer.as_slice()).unwrap();
    assert_eq!(resp.version, b"HTTP/1.1");
    assert_eq!(resp.code, 200);
    assert_eq!(resp.reason, b"OK");
    assert_eq!(resp.headers.len(), 1);
    assert_eq!(
        resp.headers.find(b"content-type").map(|v| v.as_slice()),
        Some(b"text/plain".as_slice())
    );
    assert_eq!(resp.body, b"hello");
    assert_eq!(StatusCode::try_from_u16(resp.code), Ok(StatusCode::OK));
}

#[test]
fn test_parse_response_reason_with_spaces() {
    let buffer = b"HTTP/1.1 500 Internal Server Error\r\n\r\n";
    let resp = ParsedResponse::try_from(buffer.as_slice()).unwrap();
    assert_eq!(resp.code, 500);
    assert_eq!(resp.reason, b"Internal Server Error");
    assert_eq!(resp.headers.len(), 0);
    assert_eq!(resp.body, b"");
}

#[test]
fn test_parse_response_bad_status_line() {
    let no_code = b"HTTP/1.1\r\n\r\n";
    assert_eq!(
        ParsedResponse::try_from(no_code.as_slice()).err(),
        Some(HttpError::MissingStatusCode)
    );
    let bad_code = b"HTTP/1.1 2x0 OK\r\n\r\n";
    assert_eq!(
        ParsedResponse::try_from(bad_code.as_slice()).err(),
        Some(HttpError::InvalidStatusLine)
    );
    let incomplete = b"HTTP/1.1 200 OK\r\n";
    assert_eq!(
        ParsedResponse::try_from(incomplete.as_slice()).err(),
        Some(HttpError::IncompleteHeaders)
    );
}

#[test]
fn test_status_code_from_u16() {
    assert_eq!(StatusCode::try_from_u16(200), Ok(StatusCode::OK));
    assert_eq!(StatusCode::try_from_u16(404), Ok(StatusCode::NotFound));
    assert_eq!(StatusCode::try_from_u16(503), Ok(StatusCode::ServiceUnavailable));
    assert_eq!(StatusCode::try_from_u16(299), Err(InvalidStatusCode));
    assert_eq!(StatusCode::try_from_u16(0), Err(InvalidStatusCode));
}

#[test]
fn test_response_round_trip_through_builder() {
    // A rendered response parses back to its own status, headers,
    // synthesized Content-Length, and body.
    let mut headers = HeaderList::new();
    headers
        .push(HttpHeader::new(b"Content-Type", b"text/plain"))
        .unwrap();
    let response = HttpResponse {
        status_code: StatusCode::NotFound,
        headers,
        body: ResponseBody::Text("Not Found".to_string()),
    };
    let bytes = response.build_bytes::<4096>().unwrap();

    let parsed = ParsedResponse::try_from(bytes.as_slice()).unwrap();
    assert_eq!(parsed.version, b"HTTP/1.1");
    assert_eq!(parsed.code, 404);
    assert_eq!(parsed.reason, b"Not Found");
    assert_eq!(parsed.headers.len(), 2);
    assert_eq!(
        parsed.headers.find(b"Content-Length").map(|v| v.as_slice()),
        Some(b"9".as_slice())
    );
    assert_eq!(parsed.body, b"Not Found");
}
