use std::collections::HashMap;

use http_server::headers::Headers;
use http_server::request::HttpRequest;
use http_server::response::ContentType;
use http_server::response::Status;
use http_server::router::reply_for_read;
use http_server::router::reply_for_write;
use http_server::router::route;
use http_server::router::Action;
use http_server::router::Reply;

fn request(method: &str, path: &str, headers: &[(&str, &str)], body: Option<&str>) -> HttpRequest {
    let mut header_map = Headers::new();
    for (name, value) in headers {
        header_map.insert(name.as_bytes().to_vec(), value.as_bytes().to_vec());
    }
    HttpRequest {
        method: method.as_bytes().to_vec(),
        path: path.as_bytes().to_vec(),
        version: b"HTTP/1.1".to_vec(),
        headers: header_map,
        body: body.map(|b| b.as_bytes().to_vec()),
    }
}

fn expect_reply(action: Action) -> Reply {
    match action {
        Action::Respond(reply) => reply,
        Action::ReadFile(_) => panic!("expected an immediate reply, got a file read"),
        Action::WriteFile(_, _) => panic!("expected an immediate reply, got a file write"),
    }
}

#[test]
fn root_replies_200_without_body() {
    let reply = expect_reply(route(&request("GET", "/", &[], None)));
    assert_eq!(reply.status, Status::Okay);
    assert_eq!(reply.body, None);
    assert_eq!(reply.content_type, None);
}

#[test]
fn echo_replies_with_path_remainder() {
    let reply = expect_reply(route(&request("GET", "/echo/abc", &[], None)));
    assert_eq!(reply.status, Status::Okay);
    assert_eq!(reply.body, Some(b"abc".to_vec()));
    assert_eq!(reply.content_type, Some(ContentType::TextPlain));
}

#[test]
fn echo_is_idempotent() {
    let first = expect_reply(route(&request("GET", "/echo/same", &[], None)));
    let second = expect_reply(route(&request("GET", "/echo/same", &[], None)));
    assert_eq!(first.status, second.status);
    assert_eq!(first.body, second.body);
    assert_eq!(first.content_type, second.content_type);
    assert_eq!(first.body, Some(b"same".to_vec()));
}

#[test]
fn user_agent_is_echoed_back() {
    let reply = expect_reply(route(&request(
        "GET",
        "/user-agent",
        &[("User-Agent", "testclient/1.0")],
        None,
    )));
    assert_eq!(reply.status, Status::Okay);
    assert_eq!(reply.body, Some(b"testclient/1.0".to_vec()));
    assert_eq!(reply.content_type, Some(ContentType::TextPlain));
}

#[test]
fn missing_user_agent_reports_unknown() {
    let reply = expect_reply(route(&request("GET", "/user-agent", &[], None)));
    assert_eq!(reply.body, Some(b"Unknown".to_vec()));
}

#[test]
fn file_upload_then_download_round_trips() {
    let mut directory: HashMap<Vec<u8>, Vec<u8>> = HashMap::new();

    let upload = route(&request("POST", "/files/note.txt", &[], Some("hello")));
    let written = match upload {
        Action::WriteFile(name, contents) => {
            assert_eq!(name, b"note.txt".to_vec());
            assert_eq!(contents, b"hello".to_vec());
            directory.insert(name, contents);
            true
        },
        _ => panic!("a POST with a body must ask for a file write"),
    };
    let reply = reply_for_write(written);
    assert_eq!(reply.status, Status::Created);
    assert_eq!(reply.body, None);

    let download = route(&request("GET", "/files/note.txt", &[], None));
    match download {
        Action::ReadFile(name) => {
            let content = directory.get(&name).cloned();
            let reply = reply_for_read(content);
            assert_eq!(reply.status, Status::Okay);
            assert_eq!(reply.body, Some(b"hello".to_vec()));
            assert_eq!(reply.content_type, Some(ContentType::ApplicationOctetStream));
        },
        _ => panic!("a GET under /files must ask for a file read"),
    }
}

#[test]
fn missing_file_replies_404_without_body() {
    let directory: HashMap<Vec<u8>, Vec<u8>> = HashMap::new();
    match route(&request("GET", "/files/missing.txt", &[], None)) {
        Action::ReadFile(name) => {
            assert_eq!(name, b"missing.txt".to_vec());
            let reply = reply_for_read(directory.get(&name).cloned());
            assert_eq!(reply.status, Status::NotFound);
            assert_eq!(reply.body, None);
            assert_eq!(reply.content_type, None);
        },
        _ => panic!("a GET under /files must ask for a file read"),
    }
}

#[test]
fn failed_write_replies_500() {
    let reply = reply_for_write(false);
    assert_eq!(reply.status, Status::InternalServerError);
    assert_eq!(reply.body, None);
}

#[test]
fn post_without_body_replies_400() {
    let reply = expect_reply(route(&request("POST", "/files/x", &[], None)));
    assert_eq!(reply.status, Status::BadRequest);
    assert_eq!(reply.body, None);
}

#[test]
fn unknown_path_replies_404() {
    let reply = expect_reply(route(&request("GET", "/nope", &[], None)));
    assert_eq!(reply.status, Status::NotFound);
    assert_eq!(reply.body, None);
}

#[test]
fn unknown_method_replies_404() {
    let reply = expect_reply(route(&request("DELETE", "/", &[], None)));
    assert_eq!(reply.status, Status::NotFound);
    let reply = expect_reply(route(&request("POST", "/echo/x", &[], Some("x"))));
    assert_eq!(reply.status, Status::NotFound);
}

#[test]
fn user_agent_family_matches_by_prefix() {
    let reply = expect_reply(route(&request("GET", "/user-agentXYZ", &[], None)));
    assert_eq!(reply.status, Status::Okay);
    assert_eq!(reply.body, Some(b"Unknown".to_vec()));
}

#[test]
fn files_family_matches_by_prefix() {
    match route(&request("GET", "/filesXYZ", &[], None)) {
        Action::ReadFile(name) => assert_eq!(name, b"/filesXYZ".to_vec()),
        _ => panic!("the /files family matches by string prefix"),
    }
}
