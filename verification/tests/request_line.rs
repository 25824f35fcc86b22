use tile_server::request::{extract_path_from_request, RequestError};

#[test]
fn get_request_line_yields_path() {
    let r = extract_path_from_request(b"GET /5/10/12.png HTTP/1.1");
    assert_eq!(r, Ok(b"/5/10/12.png".to_vec()));
}

#[test]
fn http_one_zero_accepted() {
    let r = extract_path_from_request(b"GET /5/10/12.png HTTP/1.0");
    assert_eq!(r, Ok(b"/5/10/12.png".to_vec()));
}

#[test]
fn path_with_query_passed_verbatim() {
    let r = extract_path_from_request(b"GET /5/10/12.png?layer=base HTTP/1.1");
    assert_eq!(r, Ok(b"/5/10/12.png?layer=base".to_vec()));
}

#[test]
fn post_method_refused() {
    let r = extract_path_from_request(b"POST /5/10/12.png HTTP/1.1");
    assert_eq!(r, Err(RequestError::UnsupportedMethod));
}

#[test]
fn lowercase_method_refused() {
    let r = extract_path_from_request(b"get /5/10/12.png HTTP/1.1");
    assert_eq!(r, Err(RequestError::UnsupportedMethod));
}

#[test]
fn other_version_refused() {
    let r = extract_path_from_request(b"GET /5/10/12.png HTTP/2.0");
    assert_eq!(r, Err(RequestError::UnsupportedVersion));
}

#[test]
fn missing_version_refused() {
    let r = extract_path_from_request(b"GET /5/10/12.png");
    assert_eq!(r, Err(RequestError::MalformedRequestLine));
}

#[test]
fn extra_token_refused() {
    let r = extract_path_from_request(b"GET /a /b HTTP/1.1");
    assert_eq!(r, Err(RequestError::MalformedRequestLine));
}

#[test]
fn empty_line_refused() {
    let r = extract_path_from_request(b"");
    assert_eq!(r, Err(RequestError::MalformedRequestLine));
}

#[test]
fn double_space_refused() {
    // A double space makes four tokens, one of them empty.
    let r = extract_path_from_request(b"GET  /5/10/12.png HTTP/1.1");
    assert_eq!(r, Err(RequestError::MalformedRequestLine));
}
