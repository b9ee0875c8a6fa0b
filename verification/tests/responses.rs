use std::io::Read;

use http_server::headers::Headers;
use http_server::response::build_response;
use http_server::response::gzip_round_trip;
use http_server::response::supports_gzip;
use http_server::response::ContentType;
use http_server::response::Status;

fn header_map(entries: &[(&str, &str)]) -> Headers {
    let mut headers = Headers::new();
    for (name, value) in entries {
        headers.insert(name.as_bytes().to_vec(), value.as_bytes().to_vec());
    }
    headers
}

fn gunzip(data: &[u8]) -> Vec<u8> {
    let mut decoder = flate2::read::GzDecoder::new(data);
    let mut out = Vec::new();
    decoder.read_to_end(&mut out).expect("valid gzip stream");
    out
}

#[test]
fn response_without_body_is_exact() {
    let response = build_response(&Headers::new(), Status::Okay, None, None, false);
    assert_eq!(response, b"HTTP/1.1 200 OK\r\n\r\n".to_vec());
}

#[test]
fn response_with_close_carries_connection_header() {
    let response = build_response(&Headers::new(), Status::Okay, None, None, true);
    assert_eq!(response, b"HTTP/1.1 200 OK\r\nConnection: close\r\n\r\n".to_vec());
}

#[test]
fn plain_body_response_is_exact() {
    let body = b"abc".to_vec();
    let response = build_response(
        &Headers::new(),
        Status::Okay,
        Some(&body),
        Some(ContentType::TextPlain),
        false,
    );
    assert_eq!(
        response,
        b"HTTP/1.1 200 OK\r\nContent-Type: text/plain\r\nContent-Length: 3\r\n\r\nabc".to_vec()
    );
}

#[test]
fn empty_body_omits_content_length() {
    let body = Vec::new();
    let response = build_response(&Headers::new(), Status::Okay, Some(&body), None, false);
    assert_eq!(response, b"HTTP/1.1 200 OK\r\n\r\n".to_vec());
}

#[test]
fn each_status_line_is_written() {
    let cases: [(Status, &str); 5] = [
        (Status::Okay, "HTTP/1.1 200 OK\r\n"),
        (Status::Created, "HTTP/1.1 201 Created\r\n"),
        (Status::BadRequest, "HTTP/1.1 400 Bad Request\r\n"),
        (Status::NotFound, "HTTP/1.1 404 Not Found\r\n"),
        (Status::InternalServerError, "HTTP/1.1 500 Internal Server Error\r\n"),
    ];
    for (status, line) in cases {
        let response = build_response(&Headers::new(), status, None, None, false);
        assert!(response.starts_with(line.as_bytes()));
    }
}

#[test]
fn gzip_negotiated_response_decompresses_to_body() {
    let headers = header_map(&[("Accept-Encoding", "gzip")]);
    let body = b"hello world, hello world, hello world".to_vec();
    let response = build_response(
        &headers,
        Status::Okay,
        Some(&body),
        Some(ContentType::TextPlain),
        false,
    );
    let text_end = response
        .windows(4)
        .position(|w| w == b"\r\n\r\n")
        .expect("header terminator")
        + 4;
    let head = &response[..text_end];
    let payload = &response[text_end..];
    let head_text = String::from_utf8(head.to_vec()).unwrap();
    assert!(head_text.contains("Content-Encoding: gzip\r\n"));
    assert!(head_text.contains(&format!("Content-Length: {}\r\n", payload.len())));
    assert_ne!(payload, body.as_slice(), "the body must really be transformed");
    assert_eq!(gunzip(payload), body);
}

#[test]
fn gzip_round_trip_returns_original() {
    let headers = header_map(&[("Accept-Encoding", "gzip")]);
    let body = b"some bytes to squeeze".to_vec();
    assert_eq!(gzip_round_trip(&headers, &body), Some(body));
}

#[test]
fn accept_encoding_substring_counts_as_gzip() {
    assert!(supports_gzip(&header_map(&[("Accept-Encoding", "deflate, x-gzip-ish")])));
}

#[test]
fn gzip_match_is_case_sensitive() {
    assert!(!supports_gzip(&header_map(&[("Accept-Encoding", "GZIP")])));
}

#[test]
fn accept_encoding_lookup_is_case_sensitive() {
    assert!(!supports_gzip(&header_map(&[("accept-encoding", "gzip")])));
    assert!(!supports_gzip(&Headers::new()));
}

#[test]
fn without_gzip_the_body_is_sent_unchanged() {
    let headers = header_map(&[("Accept-Encoding", "identity")]);
    let body = b"plain bytes".to_vec();
    let response = build_response(&headers, Status::Okay, Some(&body), None, false);
    assert!(response.ends_with(b"\r\n\r\nplain bytes"));
    let text = String::from_utf8(response.clone()).unwrap();
    assert!(!text.contains("Content-Encoding"));
}
