use simple_http::request::{HttpHeader, HttpRequest, Method, Resource, Version};

#[test]
fn version_first_token_wins() {
    // The first recognized token decides, wherever it stands in the line.
    let req = HttpRequest::new("GET /foo HTTP/1.1\r\n\r\n").unwrap();
    assert_eq!(req.version, Version::V1_1);

    let req = HttpRequest::new("HTTP/2 /x GET\r\n\r\n").unwrap();
    assert_eq!(req.version, Version::V2_0);

    let req = HttpRequest::new("GET HTTP/1.1 HTTP/2\r\n\r\n").unwrap();
    assert_eq!(req.version, Version::V1_1);
}

#[test]
fn version_accepts_all_three_literals() {
    assert_eq!(Version::new("GET / HTTP/1.1\r\n").unwrap(), Version::V1_1);
    assert_eq!(Version::new("GET / HTTP/2\r\n").unwrap(), Version::V2_0);
    assert_eq!(Version::new("GET / HTTP/2.0\r\n").unwrap(), Version::V2_0);
}

#[test]
fn version_requires_exact_token() {
    // A token merely containing a literal is not recognized.
    assert!(Version::new("GET / HTTP/1.10\r\n").is_err());
    assert!(Version::new("GET / xHTTP/2\r\n").is_err());
}

#[test]
fn version_error_message_includes_buffer() {
    let err = Version::new("GET /nothing\r\n").unwrap_err();
    assert_eq!(err.msg, "Unknown Protocol Version in GET /nothing\r\n");

    let err = HttpRequest::new("BADLINE").unwrap_err();
    assert_eq!(err.msg, "Unknown Protocol Version in BADLINE");
}

#[test]
fn version_fails_without_first_line_terminator() {
    // Without a CRLF there is no first line to scan.
    assert!(Version::new("GET / HTTP/1.1").is_err());
    assert!(Version::new("").is_err());
}

#[test]
fn parse_extracts_path() {
    let req = HttpRequest::new("GET /foo HTTP/1.1\r\nHost: x\r\n\r\nbody").unwrap();
    assert_eq!(req.resource.path, "foo");
}

#[test]
fn bad_first_line_degrades_to_defaults() {
    // No CRLF: method and resource fall back to their defaults, and version
    // parsing fails.
    assert_eq!(Method::new("BADLINE"), Method::Unrecognized);
    assert!(Resource::new("BADLINE").is_none());
    assert!(HttpRequest::new("BADLINE").is_err());
}

#[test]
fn method_recognizes_get_and_post() {
    assert_eq!(Method::new("GET / HTTP/1.1\r\n"), Method::Get);
    assert_eq!(Method::new("POST / HTTP/1.1\r\n"), Method::Post);
    assert_eq!(Method::new("PUT / HTTP/1.1\r\n"), Method::Unrecognized);
    assert_eq!(Method::new(""), Method::Unrecognized);
}

#[test]
fn unrecognized_method_still_parses() {
    let req = HttpRequest::new("PUT /x HTTP/1.1\r\n\r\n").unwrap();
    assert_eq!(req.method, Method::Unrecognized);
    assert_eq!(req.resource.path, "x");
}

#[test]
fn header_values_are_trimmed() {
    let padded = HttpRequest::new("GET / HTTP/1.1\r\nHost:  x  \r\n\r\n").unwrap();
    let tight = HttpRequest::new("GET / HTTP/1.1\r\nHost:x\r\n\r\n").unwrap();
    assert_eq!(padded.headers.get("Host"), Some(&"x".to_string()));
    assert_eq!(tight.headers.get("Host"), Some(&"x".to_string()));
}

#[test]
fn header_names_are_trimmed() {
    let req = HttpRequest::new("GET / HTTP/1.1\r\n  Host : y\r\n\r\n").unwrap();
    assert_eq!(req.headers.get("Host"), Some(&"y".to_string()));
}

#[test]
fn duplicate_header_last_wins() {
    let req = HttpRequest::new("GET / HTTP/1.1\r\nA: 1\r\nA: 2\r\n\r\n").unwrap();
    assert_eq!(req.headers.get("A"), Some(&"2".to_string()));
}

#[test]
fn header_line_without_colon_is_skipped() {
    let req = HttpRequest::new("GET / HTTP/1.1\r\nnocolon\r\nA: 1\r\n\r\n").unwrap();
    assert_eq!(req.headers.get("nocolon"), None);
    assert_eq!(req.headers.get("A"), Some(&"1".to_string()));
}

#[test]
fn headers_stop_at_blank_line() {
    let req = HttpRequest::new("GET / HTTP/1.1\r\nA: 1\r\n\r\nB: 2\r\n\r\n").unwrap();
    assert_eq!(req.headers.get("A"), Some(&"1".to_string()));
    assert_eq!(req.headers.get("B"), None);
    // The body is everything after the first blank-line separator, verbatim.
    assert_eq!(req.request_body, "B: 2\r\n\r\n");
}

#[test]
fn header_keys_are_case_sensitive() {
    let req = HttpRequest::new("GET / HTTP/1.1\r\nHost: x\r\n\r\n").unwrap();
    assert_eq!(req.headers.get("host"), None);
}

#[test]
fn body_empty_without_separator() {
    let req = HttpRequest::new("GET / HTTP/1.1\r\nHost: x\r\n").unwrap();
    assert_eq!(req.request_body, "");
}

#[test]
fn body_empty_when_buffer_ends_at_separator() {
    let req = HttpRequest::new("GET / HTTP/1.1\r\n\r\n").unwrap();
    assert_eq!(req.request_body, "");
}

#[test]
fn path_strips_one_leading_separator() {
    let req = HttpRequest::new("GET /a/b HTTP/1.1\r\n\r\n").unwrap();
    assert_eq!(req.resource.path, "a/b");
    let req = HttpRequest::new("GET //x HTTP/1.1\r\n\r\n").unwrap();
    assert_eq!(req.resource.path, "/x");
}

#[test]
fn root_path_is_empty_string() {
    let req = HttpRequest::new("GET / HTTP/1.1\r\n\r\n").unwrap();
    assert_eq!(req.resource.path, "");
}

#[test]
fn header_block_parses_standalone() {
    let h = HttpHeader::new("GET / HTTP/1.1\r\nA: 1\r\nB: 2\r\n\r\n").unwrap();
    assert_eq!(h.get("A"), Some(&"1".to_string()));
    assert_eq!(h.get("B"), Some(&"2".to_string()));
    assert_eq!(h.get("C"), None);
}

#[test]
fn empty_buffer_yields_empty_headers() {
    let h = HttpHeader::new("").unwrap();
    assert_eq!(h.get("Host"), None);
}

#[test]
fn resource_extracts_second_token() {
    let r = Resource::new("GET /foo HTTP/1.1\r\n").unwrap();
    assert_eq!(r.path, "foo");
    assert!(Resource::new("").is_none());
}

#[test]
fn path_defaults_when_first_line_has_two_fields() {
    // Only one space: no path token can be isolated.
    let req = HttpRequest::new("GET HTTP/1.1\r\n\r\n").unwrap();
    assert_eq!(req.resource.path, "");
}
