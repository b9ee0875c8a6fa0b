use http_server::conn::next_state;
use http_server::conn::should_close;
use http_server::conn::ConnState;
use http_server::headers::Headers;
use http_server::request::HttpRequest;
use http_server::response::build_response;
use http_server::router::route;
use http_server::router::Action;

fn header_map(entries: &[(&str, &str)]) -> Headers {
    let mut headers = Headers::new();
    for (name, value) in entries {
        headers.insert(name.as_bytes().to_vec(), value.as_bytes().to_vec());
    }
    headers
}

/// Drive the connection loop over a fixed incoming byte stream, as the
/// server does over a socket, and collect every response written.
fn run_connection(incoming: &[u8]) -> Vec<Vec<u8>> {
    let mut buffer = incoming.to_vec();
    let mut responses = Vec::new();
    let mut state = ConnState::Open;
    while state == ConnState::Open {
        let (request, consumed) = match HttpRequest::parse(&buffer) {
            Some(parsed) => parsed,
            None => break,
        };
        buffer.drain(..consumed);
        let close = should_close(&request.headers);
        let reply = match route(&request) {
            Action::Respond(reply) => reply,
            _ => panic!("these scenarios stay off the filesystem"),
        };
        responses.push(build_response(
            &request.headers,
            reply.status,
            reply.body.as_ref(),
            reply.content_type,
            close,
        ));
        state = next_state(true, true, close);
    }
    responses
}

#[test]
fn connection_close_writes_exactly_one_response() {
    let incoming =
        b"GET /echo/a HTTP/1.1\r\nConnection: close\r\n\r\nGET /echo/b HTTP/1.1\r\n\r\n";
    let responses = run_connection(incoming);
    assert_eq!(responses.len(), 1, "the connection must close after the first response");
    let text = String::from_utf8(responses[0].clone()).unwrap();
    assert!(text.contains("Connection: close\r\n"));
    assert!(text.ends_with("\r\n\r\na"));
}

#[test]
fn without_close_a_second_request_is_served() {
    let incoming = b"GET /echo/a HTTP/1.1\r\n\r\nGET /echo/b HTTP/1.1\r\n\r\n";
    let responses = run_connection(incoming);
    assert_eq!(responses.len(), 2);
    assert!(responses[0].ends_with(b"\r\n\r\na"));
    assert!(responses[1].ends_with(b"\r\n\r\nb"));
    let text = String::from_utf8(responses[0].clone()).unwrap();
    assert!(!text.contains("Connection: close"));
}

#[test]
fn close_header_is_matched_ignoring_case() {
    assert!(should_close(&header_map(&[("Connection", "close")])));
    assert!(should_close(&header_map(&[("Connection", "CLOSE")])));
    assert!(should_close(&header_map(&[("Connection", "Close")])));
    assert!(!should_close(&header_map(&[("Connection", "keep-alive")])));
    assert!(!should_close(&Headers::new()));
}

#[test]
fn state_machine_closes_on_any_failure_or_request() {
    assert_eq!(next_state(true, true, false), ConnState::Open);
    assert_eq!(next_state(true, true, true), ConnState::Closed);
    assert_eq!(next_state(false, true, false), ConnState::Closed);
    assert_eq!(next_state(true, false, false), ConnState::Closed);
}
