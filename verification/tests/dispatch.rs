use http_server::dispatch::{dispatch, get_file, Decision};
use http_server::files::{process_get_file, process_post_file, ReadOutcome, WriteOutcome};
use http_server::headers::Headers;
use http_server::request::{HTTPVersion, Header, Method, Request};
use http_server::response::{ContentType, Header as StatusLine, Response, StatusCode};
use std::collections::HashMap;

fn request(method: Method, path: &[u8]) -> Request {
    Request {
        start_line: Header { method, path: path.to_vec(), version: HTTPVersion::Http1_1 },
        header: Headers::new(),
        body: Vec::new(),
    }
}

fn response(code: StatusCode, content_type: ContentType, body: &[u8]) -> Response {
    Response {
        header: StatusLine { version: 1, code },
        content_type,
        content_length: body.len(),
        body: body.to_vec(),
    }
}

#[test]
fn root_is_ok_and_empty() {
    let expected = Decision::Respond(response(StatusCode::OK, ContentType::TextPlain, b""));
    assert_eq!(dispatch(request(Method::Get, b"/")), expected);
    assert_eq!(dispatch(request(Method::Post, b"/")), expected);
}

#[test]
fn root_answer_on_the_wire() {
    let text = b"GET / HTTP/1.1\r\nHost: localhost:4221\r\n\r\n";
    match dispatch(Request::from_bytes(text).unwrap()) {
        Decision::Respond(response) => {
            assert_eq!(response.content_length, 0);
            assert_eq!(
                response.to_bytes(),
                b"HTTP/1.1 200 OK\r\nContent-Type: text/plain\r\nContent-Length: 0\r\n\r\n\r\n".to_vec()
            );
        },
        other => panic!("{:?}", other),
    }
}

#[test]
fn echo_answers_with_the_rest_of_the_path() {
    assert_eq!(
        dispatch(request(Method::Get, b"/echo/abc")),
        Decision::Respond(response(StatusCode::OK, ContentType::TextPlain, b"abc"))
    );
    assert_eq!(
        dispatch(request(Method::Post, b"/echo/abc")),
        Decision::Respond(response(StatusCode::OK, ContentType::TextPlain, b"abc"))
    );
}

#[test]
fn echo_does_not_decode_the_path() {
    assert_eq!(
        dispatch(request(Method::Get, b"/echo/a%20b/c?d=e")),
        Decision::Respond(response(StatusCode::OK, ContentType::TextPlain, b"a%20b/c?d=e"))
    );
}

#[test]
fn echo_of_nothing_is_empty() {
    assert_eq!(
        dispatch(request(Method::Get, b"/echo/")),
        Decision::Respond(response(StatusCode::OK, ContentType::TextPlain, b""))
    );
}

#[test]
fn echo_answer_on_the_wire() {
    let text = b"GET /echo/hello-world HTTP/1.1\r\nHost: localhost:4221\r\n\r\n";
    match dispatch(Request::from_bytes(text).unwrap()) {
        Decision::Respond(response) => {
            assert_eq!(response.header.code, StatusCode::OK);
            assert_eq!(response.body, b"hello-world".to_vec());
            assert_eq!(response.content_length, 11);
            assert_eq!(
                response.to_bytes(),
                b"HTTP/1.1 200 OK\r\nContent-Type: text/plain\r\nContent-Length: 11\r\n\r\nhello-world\r\n"
                    .to_vec()
            );
        },
        other => panic!("{:?}", other),
    }
}

#[test]
fn user_agent_answers_with_the_field() {
    let text = b"GET /user-agent HTTP/1.1\r\nHost: localhost:4221\r\nUser-Agent: foobar/1.2.3\r\n\r\n";
    assert_eq!(
        dispatch(Request::from_bytes(text).unwrap()),
        Decision::Respond(response(StatusCode::OK, ContentType::TextPlain, b"foobar/1.2.3"))
    );
}

#[test]
fn user_agent_without_the_field_is_not_found() {
    let text = b"GET /user-agent HTTP/1.1\r\nHost: localhost:4221\r\n\r\n";
    assert_eq!(
        dispatch(Request::from_bytes(text).unwrap()),
        Decision::Respond(response(StatusCode::NotFound, ContentType::TextPlain, b""))
    );
    let text = b"GET /user-agent HTTP/1.1\r\nuser-agent: x\r\n\r\n";
    assert_eq!(
        dispatch(Request::from_bytes(text).unwrap()),
        Decision::Respond(response(StatusCode::NotFound, ContentType::TextPlain, b""))
    );
}

#[test]
fn user_agent_takes_the_last_field() {
    let text = b"POST /user-agent HTTP/1.1\r\nUser-Agent: first\r\nUser-Agent: second\r\n\r\n";
    assert_eq!(
        dispatch(Request::from_bytes(text).unwrap()),
        Decision::Respond(response(StatusCode::OK, ContentType::TextPlain, b"second"))
    );
}

#[test]
fn files_get_asks_for_the_file() {
    assert_eq!(
        dispatch(request(Method::Get, b"/files/report.txt")),
        Decision::ReadFile { name: b"report.txt".to_vec() }
    );
    assert_eq!(
        dispatch(request(Method::Get, b"/files/a/b")),
        Decision::ReadFile { name: b"a/b".to_vec() }
    );
    assert_eq!(dispatch(request(Method::Get, b"/files/")), Decision::ReadFile { name: Vec::new() });
}

#[test]
fn files_post_asks_for_the_body_to_be_written() {
    let mut post = request(Method::Post, b"/files/report.txt");
    post.body = b"12345".to_vec();
    assert_eq!(
        dispatch(post),
        Decision::WriteFile { name: b"report.txt".to_vec(), data: b"12345".to_vec() }
    );
}

#[test]
fn get_file_is_the_rest_of_the_path() {
    assert_eq!(get_file(&request(Method::Get, b"/files/report.txt")), b"report.txt".to_vec());
    assert_eq!(get_file(&request(Method::Post, b"/files/")), Vec::<u8>::new());
}

#[test]
fn unknown_paths_are_not_found() {
    let expected = Decision::Respond(response(StatusCode::NotFound, ContentType::TextPlain, b""));
    for path in [
        &b""[..],
        b"/index.html",
        b"/echo",
        b"/files",
        b"/user-agent/",
        b"/user-agentx",
        b"/Echo/abc",
        b"//",
        b"echo/abc",
        b" /",
    ] {
        assert_eq!(dispatch(request(Method::Get, path)), expected);
        assert_eq!(dispatch(request(Method::Post, path)), expected);
    }
}

#[test]
fn not_found_answer_on_the_wire() {
    let text = b"GET /nothing/here HTTP/1.1\r\n\r\n";
    match dispatch(Request::from_bytes(text).unwrap()) {
        Decision::Respond(response) => assert_eq!(
            response.to_bytes(),
            b"HTTP/1.1 404 NotFound\r\nContent-Type: text/plain\r\nContent-Length: 0\r\n\r\n\r\n".to_vec()
        ),
        other => panic!("{:?}", other),
    }
}

#[test]
fn found_file_is_served_as_an_octet_stream() {
    assert_eq!(
        process_get_file(ReadOutcome::Found(vec![1, 2, 3, 0, 255])),
        response(StatusCode::OK, ContentType::ApplicationOctetStream, &[1, 2, 3, 0, 255])
    );
    assert_eq!(
        process_get_file(ReadOutcome::Found(Vec::new())),
        response(StatusCode::OK, ContentType::ApplicationOctetStream, b"")
    );
}

#[test]
fn missing_file_is_not_found() {
    let answer = process_get_file(ReadOutcome::NotFound);
    assert_eq!(answer, response(StatusCode::NotFound, ContentType::TextPlain, b"Not found"));
    assert_eq!(answer.content_length, 9);
    assert_eq!(
        answer.to_bytes(),
        b"HTTP/1.1 404 NotFound\r\nContent-Type: text/plain\r\nContent-Length: 9\r\n\r\nNot found\r\n"
            .to_vec()
    );
}

#[test]
fn failed_read_is_an_internal_error() {
    let answer = process_get_file(ReadOutcome::Failed);
    assert_eq!(
        answer,
        response(StatusCode::InternalServerError, ContentType::TextPlain, b"Internal server error")
    );
    assert_eq!(answer.content_length, 21);
}

#[test]
fn written_file_is_created() {
    assert_eq!(
        process_post_file(WriteOutcome::Written),
        response(StatusCode::Created, ContentType::TextPlain, b"")
    );
}

#[test]
fn failed_write_is_an_internal_error() {
    assert_eq!(
        process_post_file(WriteOutcome::Failed),
        response(StatusCode::InternalServerError, ContentType::TextPlain, b"Internal server error")
    );
}

#[test]
fn posted_file_is_read_back() {
    let mut store: HashMap<Vec<u8>, Vec<u8>> = HashMap::new();
    let body = vec![b'B', 0, 1, 2, 255, b'\r', b'\n'];

    let mut post = request(Method::Post, b"/files/f");
    post.body = body.clone();
    let created = match dispatch(post) {
        Decision::WriteFile { name, data } => {
            store.insert(name, data);
            process_post_file(WriteOutcome::Written)
        },
        other => panic!("{:?}", other),
    };
    assert_eq!(created, response(StatusCode::Created, ContentType::TextPlain, b""));

    let served = match dispatch(request(Method::Get, b"/files/f")) {
        Decision::ReadFile { name } => match store.get(&name) {
            Some(bytes) => process_get_file(ReadOutcome::Found(bytes.clone())),
            None => process_get_file(ReadOutcome::NotFound),
        },
        other => panic!("{:?}", other),
    };
    assert_eq!(served, response(StatusCode::OK, ContentType::ApplicationOctetStream, &body));
}

#[test]
fn file_that_was_never_posted_is_not_found() {
    let store: HashMap<Vec<u8>, Vec<u8>> = HashMap::new();
    let served = match dispatch(request(Method::Get, b"/files/missing")) {
        Decision::ReadFile { name } => match store.get(&name) {
            Some(bytes) => process_get_file(ReadOutcome::Found(bytes.clone())),
            None => process_get_file(ReadOutcome::NotFound),
        },
        other => panic!("{:?}", other),
    };
    assert_eq!(served.header.code, StatusCode::NotFound);
    assert_eq!(served.body, b"Not found".to_vec());
}
