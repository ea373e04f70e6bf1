//! The response: status line, content type, content length and body, and the
//! bytes that go out on the wire for it.

use crate::decimal::{decimal, push_decimal};
use crate::text::{lit, push_bytes};
use vstd::prelude::*;

verus! {

/// The status of a response.
#[derive(Clone, Copy, Debug, PartialEq, Eq, Structural)]
pub enum StatusCode {
    OK,
    Created,
    NotFound,
    InternalServerError,
}

impl StatusCode {
    /// The code and the reason as they stand in the status line.
    pub open spec fn wire(self) -> Seq<u8> {
        match self {
            StatusCode::OK => lit("200 OK"),
            StatusCode::Created => lit("201 Created"),
            StatusCode::NotFound => lit("404 NotFound"),
            StatusCode::InternalServerError => lit("500 InternalServerError"),
        }
    }

    /// The three-digit number of the status.
    pub open spec fn spec_code(self) -> u16 {
        match self {
            StatusCode::OK => 200,
            StatusCode::Created => 201,
            StatusCode::NotFound => 404,
            StatusCode::InternalServerError => 500,
        }
    }

    /// The three-digit number of the status.
    pub fn code(&self) -> (n: u16)
        ensures
            n == self.spec_code(),
    {
        match self {
            StatusCode::OK => 200,
            StatusCode::Created => 201,
            StatusCode::NotFound => 404,
            StatusCode::InternalServerError => 500,
        }
    }

    /// Renders the code and the reason.
    pub fn to_bytes(&self) -> (out: Vec<u8>)
        ensures
            out@ == self.wire(),
    {
        let mut out = Vec::new();
        match self {
            StatusCode::OK => push_bytes(&mut out, "200 OK".as_bytes()),
            StatusCode::Created => push_bytes(&mut out, "201 Created".as_bytes()),
            StatusCode::NotFound => push_bytes(&mut out, "404 NotFound".as_bytes()),
            StatusCode::InternalServerError => push_bytes(
                &mut out,
                "500 InternalServerError".as_bytes(),
            ),
        }
        assert(out@ =~= self.wire());
        out
    }
}

/// The kind of content that a body holds.
#[derive(Clone, Copy, Debug, PartialEq, Eq, Structural)]
pub enum ContentType {
    TextPlain,
    ApplicationOctetStream,
}

impl ContentType {
    /// The `Content-Type` line, without its line end.
    pub open spec fn wire(self) -> Seq<u8> {
        match self {
            ContentType::TextPlain => lit("Content-Type: text/plain"),
            ContentType::ApplicationOctetStream => lit("Content-Type: application/octet-stream"),
        }
    }

    /// Renders the `Content-Type` line, without its line end.
    pub fn to_bytes(&self) -> (out: Vec<u8>)
        ensures
            out@ == self.wire(),
    {
        let mut out = Vec::new();
        match self {
            ContentType::TextPlain => push_bytes(&mut out, "Content-Type: text/plain".as_bytes()),
            ContentType::ApplicationOctetStream => push_bytes(
                &mut out,
                "Content-Type: application/octet-stream".as_bytes(),
            ),
        }
        assert(out@ =~= self.wire());
        out
    }
}

/// The status line of a response.
#[derive(Clone, Copy, Debug, PartialEq, Eq, Structural)]
pub struct Header {
    /// The minor version of HTTP/1 that the response speaks; the line always renders as 1.1.
    pub version: usize,
    pub code: StatusCode,
}

impl Header {
    /// The status line, without its line end.
    pub open spec fn wire(self) -> Seq<u8> {
        lit("HTTP/1.1 ") + self.code.wire()
    }

    /// Renders the status line, without its line end.
    pub fn to_bytes(&self) -> (out: Vec<u8>)
        ensures
            out@ == self.wire(),
    {
        let mut out = Vec::new();
        push_bytes(&mut out, "HTTP/1.1 ".as_bytes());
        let code = self.code.to_bytes();
        push_bytes(&mut out, code.as_slice());
        assert(out@ =~= self.wire());
        out
    }
}

/// A response, ready to be rendered.
#[derive(Debug, PartialEq, Eq)]
pub struct Response {
    pub header: Header,
    pub content_type: ContentType,
    /// The length that the response announces. `Response::new` sets it to the
    /// length of the body; rendering writes it as it stands.
    pub content_length: usize,
    pub body: Vec<u8>,
}

/// What a response holds.
pub struct ResponseView {
    pub header: Header,
    pub content_type: ContentType,
    pub content_length: nat,
    pub body: Seq<u8>,
}

impl ResponseView {
    /// The announced length is the length of the body.
    pub open spec fn well_formed(self) -> bool {
        self.content_length == self.body.len()
    }

    /// The response with the given status, content type and body, announcing the body's length.
    pub open spec fn new(code: StatusCode, content_type: ContentType, body: Seq<u8>) -> ResponseView {
        ResponseView {
            header: Header { version: 1, code },
            content_type,
            content_length: body.len(),
            body,
        }
    }

    /// The bytes on the wire: status line, content type, content length, an
    /// empty line, the body, and a closing line end that the announced length
    /// does not count.
    pub open spec fn wire(self) -> Seq<u8> {
        self.header.wire() + lit("\r\n") + self.content_type.wire() + lit("\r\n") + lit(
            "Content-Length: ",
        ) + decimal(self.content_length) + lit("\r\n\r\n") + self.body + lit("\r\n")
    }
}

impl View for Response {
    type V = ResponseView;

    open spec fn view(&self) -> ResponseView {
        ResponseView {
            header: self.header,
            content_type: self.content_type,
            content_length: self.content_length as nat,
            body: self.body@,
        }
    }
}

impl Response {
    /// A response with the given status, content type and body, which announces the body's length.
    pub fn new(code: StatusCode, content_type: ContentType, body: Vec<u8>) -> (r: Response)
        ensures
            r@ == ResponseView::new(code, content_type, body@),
            r@.well_formed(),
    {
        Response {
            header: Header { version: 1, code },
            content_type,
            content_length: body.len(),
            body,
        }
    }

    /// Renders the response to the bytes that go out on the wire.
    pub fn to_bytes(&self) -> (out: Vec<u8>)
        ensures
            out@ == self@.wire(),
    {
        let mut out = self.header.to_bytes();
        push_bytes(&mut out, "\r\n".as_bytes());
        let content_type = self.content_type.to_bytes();
        push_bytes(&mut out, content_type.as_slice());
        push_bytes(&mut out, "\r\n".as_bytes());
        push_bytes(&mut out, "Content-Length: ".as_bytes());
        push_decimal(self.content_length, &mut out);
        push_bytes(&mut out, "\r\n\r\n".as_bytes());
        push_bytes(&mut out, self.body.as_slice());
        push_bytes(&mut out, "\r\n".as_bytes());
        out
    }
}

} // verus!
