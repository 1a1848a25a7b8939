use nanofish::{HeaderList, HttpError, HttpHeader, MAX_HEADERS};

#[test]
fn test_header_new_copies_spans() {
    let h = HttpHeader::new(b"Host", b"example.com");
    assert_eq!(h.name, b"Host");
    assert_eq!(h.value, b"example.com");
}

#[test]
fn test_header_list_insertion_order() {
    let mut headers = HeaderList::new();
    assert_eq!(headers.len(), 0);
    headers.push(HttpHeader::new(b"A", b"1")).unwrap();
    headers.push(HttpHeader::new(b"B", b"2")).unwrap();
    headers.push(HttpHeader::new(b"C", b"3")).unwrap();
    assert_eq!(headers.len(), 3);
    assert_eq!(headers.get(0).unwrap().name, b"A");
    assert_eq!(headers.get(1).unwrap().name, b"B");
    assert_eq!(headers.get(2).unwrap().name, b"C");
    assert!(headers.get(3).is_none());
}

#[test]
fn test_header_list_capacity_seventeenth_fails() {
    // Filling the collection to its capacity succeeds; the seventeenth
    // insertion fails and leaves the first sixteen intact.
    let mut headers = HeaderList::new();
    for i in 0..MAX_HEADERS {
        let name = format!("Header-{i}");
        let value = format!("value-{i}");
        headers
            .push(HttpHeader::new(name.as_bytes(), value.as_bytes()))
            .unwrap();
    }
    assert_eq!(headers.len(), 16);

    let result = headers.push(HttpHeader::new(b"One-Too-Many", b"x"));
    assert_eq!(result, Err(HttpError::TooManyHeaders));

    assert_eq!(headers.len(), 16);
    for i in 0..MAX_HEADERS {
        let name = format!("Header-{i}");
        let value = format!("value-{i}");
        assert_eq!(headers.get(i).unwrap().name, name.as_bytes());
        assert_eq!(headers.get(i).unwrap().value, value.as_bytes());
    }
}

#[test]
fn test_header_lookup_case_insensitive() {
    // A header inserted as Content-Type is found by the query content-type.
    let mut headers = HeaderList::new();
    headers
        .push(HttpHeader::new(b"Content-Type", b"text/html"))
        .unwrap();
    assert_eq!(headers.find(b"content-type").map(|v| v.as_slice()), Some(b"text/html".as_slice()));
    assert_eq!(headers.find(b"CONTENT-TYPE").map(|v| v.as_slice()), Some(b"text/html".as_slice()));
    assert_eq!(headers.find(b"Content-Type").map(|v| v.as_slice()), Some(b"text/html".as_slice()));
    assert!(headers.find(b"content-length").is_none());
}

#[test]
fn test_header_lookup_first_match_wins() {
    let mut headers = HeaderList::new();
    headers.push(HttpHeader::new(b"X-Tag", b"first")).unwrap();
    headers.push(HttpHeader::new(b"x-tag", b"second")).unwrap();
    assert_eq!(headers.find(b"X-TAG").map(|v| v.as_slice()), Some(b"first".as_slice()));
}
