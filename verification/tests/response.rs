use simple_http::request::HttpRequest;
use simple_http::response::{AcceptRanges, HttpResponse, ResponseStatus, usize_to_decimal};

const PAYLOAD: &str =
    "\n[package]\nname = \"simple-http\"\nversion = \"0.1.0\"\nedition = \"2021\"\n\n[dependencies]\n";

#[test]
fn content_length_matches_body_byte_length() {
    for buf in [
        "GET /foo HTTP/1.1\r\nHost: x\r\n\r\nbody",
        "POST / HTTP/2\r\n\r\n",
        "HTTP/2.0\r\n",
    ] {
        let resp = HttpRequest::new(buf).unwrap().response();
        assert_eq!(resp.content_length, resp.response_body.len());
    }
}

#[test]
fn response_fields_are_fixed() {
    let req = HttpRequest::new("GET /foo HTTP/1.1\r\n\r\n").unwrap();
    let resp = HttpResponse::new(req);
    assert_eq!(resp.status, ResponseStatus::OK);
    assert_eq!(resp.accept_ranges, AcceptRanges::NoRanges);
    assert_eq!(resp.version.label(), "HTTP/2");
    assert_eq!(resp.response_body, PAYLOAD);
    assert_eq!(resp.package_name, "simple-http");
    assert_eq!(resp.package_version, "0.1.0");
    assert_eq!(resp.status.code(), 200);
}

#[test]
fn response_echoes_request_path() {
    let req = HttpRequest::new("GET /foo/bar HTTP/1.1\r\n\r\n").unwrap();
    let resp = req.response();
    assert_eq!(resp.current_path, "foo/bar");
}

#[test]
fn serialized_response_has_fixed_prefix_and_one_separator() {
    for buf in ["GET /foo HTTP/1.1\r\n\r\nbody", "X HTTP/2 y\r\n"] {
        let wire = HttpRequest::new(buf).unwrap().response().serialize();
        assert!(wire.starts_with("HTTP/2 200 OK\r\n"));
        assert_eq!(wire.matches("\r\n\r\n").count(), 1);
    }
}

#[test]
fn serialized_response_exact_wire_form() {
    let wire = HttpRequest::new("GET / HTTP/1.1\r\n\r\n").unwrap().response().serialize();
    let expected = format!(
        "HTTP/2 200 OK\r\nContent-Length: {}\r\nAccept-Ranges: none\r\nX-Package-Name: simple-http\r\nX-Package-Version: 0.1.0\r\n\r\n{}",
        PAYLOAD.len(),
        PAYLOAD
    );
    assert_eq!(wire, expected);
}

#[test]
fn status_labels() {
    assert_eq!(ResponseStatus::OK.label(), "200 OK");
    assert_eq!(ResponseStatus::NotFound.label(), "404 Not Found");
    assert_eq!(ResponseStatus::NotFound.code(), 404);
}

#[test]
fn accept_ranges_labels() {
    assert_eq!(AcceptRanges::Bytes.label(), "Accept-Ranges: bytes");
    assert_eq!(AcceptRanges::NoRanges.label(), "Accept-Ranges: none");
}

#[test]
fn decimal_rendering() {
    assert_eq!(usize_to_decimal(0), "0");
    assert_eq!(usize_to_decimal(7), "7");
    assert_eq!(usize_to_decimal(10), "10");
    assert_eq!(usize_to_decimal(90), "90");
    assert_eq!(usize_to_decimal(12345), "12345");
}
