use tile_server::response::{build_response, build_response_header, content_type_png_bytes,
    content_type_html_bytes};

#[test]
fn header_bytes_exact_for_png() {
    let header = build_response_header(b"image/png", 11);
    let expected: &[u8] =
        b"HTTP/1.1 200 OK\r\nContent-Type: image/png\r\nContent-Length: 11\r\nConnection: close\r\n\r\n";
    assert_eq!(header, expected.to_vec());
}

#[test]
fn header_bytes_exact_for_html() {
    let header = build_response_header(b"text/html", 0);
    let expected: &[u8] =
        b"HTTP/1.1 200 OK\r\nContent-Type: text/html\r\nContent-Length: 0\r\nConnection: close\r\n\r\n";
    assert_eq!(header, expected.to_vec());
}

#[test]
fn whole_response_appends_body() {
    let body: &[u8] = b"hello world";
    let response = build_response(b"text/html", body);
    let expected: &[u8] =
        b"HTTP/1.1 200 OK\r\nContent-Type: text/html\r\nContent-Length: 11\r\nConnection: close\r\n\r\nhello world";
    assert_eq!(response, expected.to_vec());
}

#[test]
fn content_length_counts_bytes_exactly() {
    for len in [0usize, 1, 9, 10, 99, 100, 4096] {
        let body = vec![0u8; len];
        let header = build_response_header(b"image/png", body.len());
        let tail = format!("Content-Length: {}\r\nConnection: close\r\n\r\n", len);
        let header_str = String::from_utf8(header).unwrap();
        assert!(header_str.ends_with(&tail));
    }
}

#[test]
fn content_type_constants() {
    assert_eq!(content_type_png_bytes(), b"image/png".to_vec());
    assert_eq!(content_type_html_bytes(), b"text/html".to_vec());
}
