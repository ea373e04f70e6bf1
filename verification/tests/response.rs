use http_server::response::{ContentType, Header, Response, StatusCode};

#[test]
fn status_codes_render_code_and_reason() {
    assert_eq!(StatusCode::OK.to_bytes(), b"200 OK".to_vec());
    assert_eq!(StatusCode::Created.to_bytes(), b"201 Created".to_vec());
    assert_eq!(StatusCode::NotFound.to_bytes(), b"404 NotFound".to_vec());
    assert_eq!(StatusCode::InternalServerError.to_bytes(), b"500 InternalServerError".to_vec());
}

#[test]
fn status_codes_have_their_numbers() {
    assert_eq!(StatusCode::OK.code(), 200);
    assert_eq!(StatusCode::Created.code(), 201);
    assert_eq!(StatusCode::NotFound.code(), 404);
    assert_eq!(StatusCode::InternalServerError.code(), 500);
}

#[test]
fn content_types_render_their_line() {
    assert_eq!(ContentType::TextPlain.to_bytes(), b"Content-Type: text/plain".to_vec());
    assert_eq!(
        ContentType::ApplicationOctetStream.to_bytes(),
        b"Content-Type: application/octet-stream".to_vec()
    );
}

#[test]
fn status_line_renders_the_version_and_the_status() {
    let header = Header { version: 1, code: StatusCode::NotFound };
    assert_eq!(header.to_bytes(), b"HTTP/1.1 404 NotFound".to_vec());
}

#[test]
fn status_line_always_says_one_point_one() {
    let header = Header { version: 0, code: StatusCode::OK };
    assert_eq!(header.to_bytes(), b"HTTP/1.1 200 OK".to_vec());
}

#[test]
fn new_response_announces_the_length_of_its_body() {
    let response = Response::new(StatusCode::OK, ContentType::TextPlain, b"hello".to_vec());
    assert_eq!(response.header, Header { version: 1, code: StatusCode::OK });
    assert_eq!(response.content_type, ContentType::TextPlain);
    assert_eq!(response.content_length, 5);
    assert_eq!(response.body, b"hello".to_vec());
}

#[test]
fn response_renders_to_the_wire_format() {
    let response = Response::new(StatusCode::OK, ContentType::TextPlain, b"abc".to_vec());
    assert_eq!(
        response.to_bytes(),
        b"HTTP/1.1 200 OK\r\nContent-Type: text/plain\r\nContent-Length: 3\r\n\r\nabc\r\n".to_vec()
    );
}

#[test]
fn empty_response_renders_a_zero_length_and_the_closing_line_end() {
    let response = Response::new(StatusCode::Created, ContentType::TextPlain, Vec::new());
    assert_eq!(
        response.to_bytes(),
        b"HTTP/1.1 201 Created\r\nContent-Type: text/plain\r\nContent-Length: 0\r\n\r\n\r\n".to_vec()
    );
}

#[test]
fn binary_body_goes_out_byte_for_byte() {
    let body = vec![0u8, 255, 13, 10, 128, 7];
    let response = Response::new(StatusCode::OK, ContentType::ApplicationOctetStream, body.clone());
    let mut expected =
        b"HTTP/1.1 200 OK\r\nContent-Type: application/octet-stream\r\nContent-Length: 6\r\n\r\n"
            .to_vec();
    expected.extend_from_slice(&body);
    expected.extend_from_slice(b"\r\n");
    assert_eq!(response.to_bytes(), expected);
}

#[test]
fn long_body_announces_a_length_of_several_digits() {
    let body = vec![b'x'; 1234];
    let bytes = Response::new(StatusCode::OK, ContentType::TextPlain, body).to_bytes();
    let head = b"HTTP/1.1 200 OK\r\nContent-Type: text/plain\r\nContent-Length: 1234\r\n\r\n";
    assert_eq!(&bytes[..head.len()], &head[..]);
    assert_eq!(bytes.len(), head.len() + 1234 + 2);
    assert_eq!(&bytes[bytes.len() - 2..], b"\r\n");
}

#[test]
fn rendering_writes_the_announced_length_as_it_stands() {
    let response = Response {
        header: Header { version: 1, code: StatusCode::OK },
        content_type: ContentType::TextPlain,
        content_length: 10,
        body: b"abc".to_vec(),
    };
    assert_eq!(
        response.to_bytes(),
        b"HTTP/1.1 200 OK\r\nContent-Type: text/plain\r\nContent-Length: 10\r\n\r\nabc\r\n".to_vec()
    );
}

#[test]
fn internal_server_error_renders() {
    let response = Response::new(
        StatusCode::InternalServerError,
        ContentType::TextPlain,
        b"Internal server error".to_vec(),
    );
    assert_eq!(
        response.to_bytes(),
        b"HTTP/1.1 500 InternalServerError\r\nContent-Type: text/plain\r\nContent-Length: 21\r\n\r\nInternal server error\r\n"
            .to_vec()
    );
}
