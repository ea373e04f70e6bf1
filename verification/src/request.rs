//! The request: start line, header fields and body, and the grammar that
//! reads the first two from the text that came over the wire.

use crate::decimal::{parse_decimal, spec_parse_decimal};
use crate::headers::Headers;
use crate::text::{
    bytes_eq, contains_byte, find, lemma_find, lemma_find_after, lit, spec_find, CR, LF, SP,
};
use vstd::prelude::*;
use vstd::slice::{slice_subrange, slice_to_vec};

verus! {

/// The colon that ends the name of a header field.
pub const COLON: u8 = 58;

/// The methods that the server answers.
#[derive(Clone, Copy, Debug, PartialEq, Eq, Structural)]
pub enum Method {
    Get,
    Post,
}

/// The versions of the protocol that the server speaks.
#[derive(Clone, Copy, Debug, PartialEq, Eq, Structural)]
pub enum HTTPVersion {
    Http1_1,
}

/// Why a text is no request. The grammar tells no more than that.
#[derive(Clone, Copy, Debug, PartialEq, Eq, Structural)]
pub enum ParseError {
    Malformed,
}

/// The start line of a request.
#[derive(Debug, PartialEq, Eq)]
pub struct Header {
    pub method: Method,
    /// The path as it was received, not decoded.
    pub path: Vec<u8>,
    pub version: HTTPVersion,
}

/// What a start line holds.
pub struct HeaderView {
    pub method: Method,
    pub path: Seq<u8>,
    pub version: HTTPVersion,
}

impl View for Header {
    type V = HeaderView;

    open spec fn view(&self) -> HeaderView {
        HeaderView { method: self.method, path: self.path@, version: self.version }
    }
}

/// A request.
#[derive(Debug)]
pub struct Request {
    pub start_line: Header,
    pub header: Headers,
    /// Empty unless the request announced a length and that many bytes followed.
    pub body: Vec<u8>,
}

/// What a request holds.
pub struct RequestView {
    pub start_line: HeaderView,
    pub header: Map<Seq<u8>, Seq<u8>>,
    pub body: Seq<u8>,
}

impl View for Request {
    type V = RequestView;

    open spec fn view(&self) -> RequestView {
        RequestView { start_line: self.start_line@, header: self.header@, body: self.body@ }
    }
}

impl Method {
    /// The method that a token names: `GET` or `POST`, in capitals.
    pub open spec fn spec_from_bytes(token: Seq<u8>) -> Option<Method> {
        if token == lit("GET") {
            Some(Method::Get)
        } else if token == lit("POST") {
            Some(Method::Post)
        } else {
            None
        }
    }

    /// Reads a method. Any token but `GET` and `POST` is refused.
    pub fn from_bytes(token: &[u8]) -> (r: Result<Method, ParseError>)
        ensures
            match r {
                Ok(method) => Method::spec_from_bytes(token@) == Some(method),
                Err(_) => Method::spec_from_bytes(token@) is None,
            },
    {
        if bytes_eq(token, "GET".as_bytes()) {
            Ok(Method::Get)
        } else if bytes_eq(token, "POST".as_bytes()) {
            Ok(Method::Post)
        } else {
            Err(ParseError::Malformed)
        }
    }
}

impl HTTPVersion {
    /// The version that a token names: `HTTP/1.1` and no other.
    pub open spec fn spec_from_bytes(token: Seq<u8>) -> Option<HTTPVersion> {
        if token == lit("HTTP/1.1") {
            Some(HTTPVersion::Http1_1)
        } else {
            None
        }
    }

    /// Reads a version. Any token but `HTTP/1.1` is refused.
    pub fn from_bytes(token: &[u8]) -> (r: Result<HTTPVersion, ParseError>)
        ensures
            match r {
                Ok(version) => HTTPVersion::spec_from_bytes(token@) == Some(version),
                Err(_) => HTTPVersion::spec_from_bytes(token@) is None,
            },
    {
        if bytes_eq(token, "HTTP/1.1".as_bytes()) {
            Ok(HTTPVersion::Http1_1)
        } else {
            Err(ParseError::Malformed)
        }
    }
}

/// The start line that a text begins with, and the number of bytes it takes.
///
/// A start line is a method, a space, a path, a space, a version and a line
/// end. The method is what stands before the first space; the path is what
/// stands between that space and the next one, whatever bytes these are; the
/// version is what stands between the second space and the first line end
/// after it.
pub open spec fn spec_parse_start_line(input: Seq<u8>) -> Option<(HeaderView, int)> {
    match spec_find(input, lit(" ")) {
        None => None,
        Some(a) => match Method::spec_from_bytes(input.take(a)) {
            None => None,
            Some(method) => {
                let rest = input.skip(a + lit(" ").len());
                match spec_find(rest, lit(" ")) {
                    None => None,
                    Some(b) => {
                        let tail = rest.skip(b + lit(" ").len());
                        match spec_find(tail, lit("\r\n")) {
                            None => None,
                            Some(c) => match HTTPVersion::spec_from_bytes(tail.take(c)) {
                                None => None,
                                Some(version) => Some(
                                    (
                                        HeaderView { method, path: rest.take(b), version },
                                        a + lit(" ").len() + b + lit(" ").len() + c + lit(
                                            "\r\n",
                                        ).len(),
                                    ),
                                ),
                            },
                        }
                    },
                }
            },
        },
    }
}

/// The header field that a text begins with, as name and value, and the
/// number of bytes it takes.
///
/// A field is a line: what stands before the first line end, which holds no
/// other carriage return or line feed. The name is what stands before the
/// first colon and space in the line, the value what stands after them;
/// neither is trimmed or folded.
pub open spec fn spec_parse_header_line(input: Seq<u8>) -> Option<(Seq<u8>, Seq<u8>, int)> {
    match spec_find(input, lit("\r\n")) {
        None => None,
        Some(end) => {
            let line = input.take(end);
            if line.contains(CR) || line.contains(LF) {
                None
            } else {
                match spec_find(line, lit(": ")) {
                    None => None,
                    Some(colon) => Some(
                        (
                            line.take(colon),
                            line.skip(colon + lit(": ").len()),
                            end + lit("\r\n").len(),
                        ),
                    ),
                }
            }
        },
    }
}

/// The lengths of the separators.
pub proof fn lemma_separators()
    ensures
        lit(" ") == seq![SP],
        lit("\r\n") == seq![CR, LF],
        lit(": ").len() == 2,
{
    reveal_strlit(" ");
    reveal_strlit("\r\n");
    reveal_strlit(": ");
    vstd::string::is_ascii_spec_bytes(" ");
    vstd::string::is_ascii_spec_bytes("\r\n");
    vstd::string::is_ascii_spec_bytes(": ");
    assert(lit(" ") =~= seq![SP]);
    assert(lit("\r\n") =~= seq![CR, LF]);
}

/// A header field takes at least its line end and no more than the text holds.
pub proof fn lemma_header_line_taken(input: Seq<u8>)
    ensures
        spec_parse_header_line(input) matches Some((_, _, taken)) ==> 0 < taken <= input.len(),
{
    lemma_separators();
    lemma_find(input, lit("\r\n"));
}

/// The fields that a text holds, added to `fields` in the order in which
/// they stand, so that of two fields with one name the later one stays.
///
/// The fields end at the end of the text, or where nothing but an empty line
/// is left.
pub open spec fn spec_parse_headers(input: Seq<u8>, fields: Map<Seq<u8>, Seq<u8>>) -> Option<
    Map<Seq<u8>, Seq<u8>>,
>
    decreases input.len(),
{
    if input.len() == 0 || input == lit("\r\n") {
        Some(fields)
    } else {
        match spec_parse_header_line(input) {
            None => None,
            Some((name, value, taken)) => {
                proof {
                    lemma_header_line_taken(input);
                }
                spec_parse_headers(input.skip(taken), fields.insert(name, value))
            },
        }
    }
}

/// The request that a text is: a start line, then header fields. The body is
/// no part of the text and is left empty.
pub open spec fn spec_parse_request(input: Seq<u8>) -> Option<RequestView> {
    match spec_parse_start_line(input) {
        None => None,
        Some((start_line, taken)) => match spec_parse_headers(input.skip(taken), Map::empty()) {
            None => None,
            Some(header) => Some(RequestView { start_line, header, body: Seq::empty() }),
        },
    }
}

/// The number of body bytes that a request announces: none without a
/// `Content-Length` field, and an error where the field holds no number.
pub open spec fn spec_content_length(header: Map<Seq<u8>, Seq<u8>>) -> Result<
    Option<usize>,
    ParseError,
> {
    if header.contains_key(lit("Content-Length")) {
        match spec_parse_decimal(header[lit("Content-Length")]) {
            Some(length) => Ok(Some(length)),
            None => Err(ParseError::Malformed),
        }
    } else {
        Ok(None)
    }
}

/// Reads the start line that `input` begins with, and tells how many bytes it took.
///
/// Fails where `input` does not begin with a method, a space, a path without
/// a space, a space, the version and a line end.
pub fn parse_start_line(input: &[u8]) -> (r: Result<(Header, usize), ParseError>)
    ensures
        match r {
            Ok((header, taken)) => spec_parse_start_line(input@) == Some((header@, taken as int))
                && taken <= input.len(),
            Err(_) => spec_parse_start_line(input@) is None,
        },
{
    proof {
        lemma_separators();
        lemma_find(input@, lit(" "));
    }
    let a = match find(input, " ".as_bytes()) {
        Some(a) => a,
        None => {
            return Err(ParseError::Malformed);
        },
    };
    let method = match Method::from_bytes(slice_subrange(input, 0, a)) {
        Ok(method) => method,
        Err(e) => {
            return Err(e);
        },
    };
    let rest = slice_subrange(input, a + 1, input.len());
    assert(rest@ == input@.skip(a + 1));
    proof {
        lemma_find(rest@, lit(" "));
    }
    let b = match find(rest, " ".as_bytes()) {
        Some(b) => b,
        None => {
            return Err(ParseError::Malformed);
        },
    };
    let tail = slice_subrange(rest, b + 1, rest.len());
    assert(tail@ == rest@.skip(b + 1));
    proof {
        lemma_find(tail@, lit("\r\n"));
    }
    let c = match find(tail, "\r\n".as_bytes()) {
        Some(c) => c,
        None => {
            return Err(ParseError::Malformed);
        },
    };
    let version = match HTTPVersion::from_bytes(slice_subrange(tail, 0, c)) {
        Ok(version) => version,
        Err(e) => {
            return Err(e);
        },
    };
    let path = slice_to_vec(slice_subrange(rest, 0, b));
    Ok((Header { method, path, version }, a + 1 + b + 1 + c + 2))
}

/// Reads the header field that `input` begins with, as name and value, and
/// tells how many bytes it took.
///
/// Fails where `input` holds no line end, where the line before the first
/// line end holds a stray carriage return or line feed, and where it holds
/// no colon followed by a space.
pub fn parse_header_line(input: &[u8]) -> (r: Result<(Vec<u8>, Vec<u8>, usize), ParseError>)
    ensures
        match r {
            Ok((name, value, taken)) => spec_parse_header_line(input@) == Some(
                (name@, value@, taken as int),
            ) && 0 < taken <= input.len(),
            Err(_) => spec_parse_header_line(input@) is None,
        },
{
    proof {
        lemma_separators();
        lemma_find(input@, lit("\r\n"));
    }
    let end = match find(input, "\r\n".as_bytes()) {
        Some(end) => end,
        None => {
            return Err(ParseError::Malformed);
        },
    };
    let line = slice_subrange(input, 0, end);
    if contains_byte(line, CR) || contains_byte(line, LF) {
        return Err(ParseError::Malformed);
    }
    proof {
        lemma_find(line@, lit(": "));
    }
    let colon = match find(line, ": ".as_bytes()) {
        Some(colon) => colon,
        None => {
            return Err(ParseError::Malformed);
        },
    };
    let name = slice_to_vec(slice_subrange(line, 0, colon));
    let value = slice_to_vec(slice_subrange(line, colon + 2, line.len()));
    Ok((name, value, end + 2))
}

impl Request {
    /// Reads a request from the text that came before its body: the start
    /// line and the header fields.
    ///
    /// Fails where the text does not begin with a start line, and where what
    /// follows the start line, up to the end of the text or to a last empty
    /// line, is not a run of header fields. Nothing else fails.
    pub fn from_bytes(input: &[u8]) -> (r: Result<Request, ParseError>)
        ensures
            match r {
                Ok(request) => spec_parse_request(input@) == Some(request@),
                Err(_) => spec_parse_request(input@) is None,
            },
    {
        let (start_line, taken) = match parse_start_line(input) {
            Ok(parsed) => parsed,
            Err(e) => {
                return Err(e);
            },
        };
        let mut header = Headers::new();
        let mut at: usize = taken;
        loop
            invariant
                taken <= at <= input.len(),
                spec_parse_start_line(input@) == Some((start_line@, taken as int)),
                spec_parse_headers(input@.skip(taken as int), Map::empty()) == spec_parse_headers(
                    input@.skip(at as int),
                    header@,
                ),
            ensures
                spec_parse_headers(input@.skip(taken as int), Map::empty()) == Some(header@),
            decreases input.len() - at,
        {
            let rest = slice_subrange(input, at, input.len());
            assert(rest@ == input@.skip(at as int));
            if rest.len() == 0 || bytes_eq(rest, "\r\n".as_bytes()) {
                break;
            }
            match parse_header_line(rest) {
                Ok((name, value, used)) => {
                    assert(rest@.skip(used as int) == input@.skip(at + used));
                    header.insert(name, value);
                    at += used;
                },
                Err(e) => {
                    return Err(e);
                },
            }
        }
        Ok(Request { start_line, header, body: Vec::new() })
    }

    /// The number of body bytes that the request announces in its
    /// `Content-Length` field: `None` without the field, an error where the
    /// field holds anything but a number that fits in `usize`.
    pub fn content_length(&self) -> (r: Result<Option<usize>, ParseError>)
        ensures
            r == spec_content_length(self@.header),
    {
        match self.header.get("Content-Length".as_bytes()) {
            Some(value) => match parse_decimal(value.as_slice()) {
                Some(length) => Ok(Some(length)),
                None => Err(ParseError::Malformed),
            },
            None => Ok(None),
        }
    }
}

impl Method {
    /// The token that names the method.
    pub open spec fn token(self) -> Seq<u8> {
        match self {
            Method::Get => lit("GET"),
            Method::Post => lit("POST"),
        }
    }
}

/// The text of a start line with the given method and path.
pub open spec fn start_line_text(method: Method, path: Seq<u8>) -> Seq<u8> {
    method.token() + lit(" ") + path + lit(" ") + lit("HTTP/1.1") + lit("\r\n")
}

/// The text of a header field with the given name and value.
pub open spec fn field_text(name: Seq<u8>, value: Seq<u8>) -> Seq<u8> {
    name + lit(": ") + value + lit("\r\n")
}

/// The bytes that the tokens of a start line are free of.
proof fn lemma_tokens()
    ensures
        !lit("GET").contains(SP),
        !lit("POST").contains(SP),
        lit("GET") != lit("POST"),
        !lit("HTTP/1.1").contains(CR),
{
    reveal_strlit("GET");
    reveal_strlit("POST");
    reveal_strlit("HTTP/1.1");
    vstd::string::is_ascii_spec_bytes("GET");
    vstd::string::is_ascii_spec_bytes("POST");
    vstd::string::is_ascii_spec_bytes("HTTP/1.1");
    assert(lit("GET") =~= seq![71u8, 69u8, 84u8]);
    assert(lit("POST") =~= seq![80u8, 79u8, 83u8, 84u8]);
    assert(lit("HTTP/1.1") =~= seq![72u8, 84u8, 84u8, 80u8, 47u8, 49u8, 46u8, 49u8]);
}

/// A start line reads as what it was written from: for every method and
/// every path without a space, the text of the start line, whatever follows
/// it, is read as that method, that path and the one version, and the whole
/// line is taken.
pub proof fn lemma_parse_start_line_text(method: Method, path: Seq<u8>, rest: Seq<u8>)
    requires
        !path.contains(SP),
    ensures
        spec_parse_start_line(start_line_text(method, path) + rest) == Some(
            (
                HeaderView { method, path, version: HTTPVersion::Http1_1 },
                start_line_text(method, path).len() as int,
            ),
        ),
{
    lemma_separators();
    lemma_tokens();
    let sp = lit(" ");
    let crlf = lit("\r\n");
    let version = lit("HTTP/1.1");
    let token = method.token();
    let input = start_line_text(method, path) + rest;
    let a = token.len() as int;
    let after_method = path + sp + version + crlf + rest;
    assert(input =~= token + sp + after_method);
    lemma_find_after(token, sp, after_method);
    assert(input.take(a) =~= token);
    assert(input.skip(a + 1) =~= after_method);
    let b = path.len() as int;
    let after_path = version + crlf + rest;
    assert(after_method =~= path + sp + after_path);
    lemma_find_after(path, sp, after_path);
    assert(after_method.take(b) =~= path);
    assert(after_method.skip(b + 1) =~= after_path);
    lemma_find_after(version, crlf, rest);
    assert(after_path.take(version.len() as int) =~= version);
}

/// What is read as a start line is the text of one: the bytes taken are
/// the text of a start line with the method and the path that were read, and
/// the path holds no space.
pub proof fn lemma_start_line_is_text(input: Seq<u8>)
    ensures
        spec_parse_start_line(input) matches Some((header, taken)) ==> 0 <= taken <= input.len()
            && input.take(taken) == start_line_text(header.method, header.path)
            && !header.path.contains(SP) && header.version == HTTPVersion::Http1_1,
{
    lemma_separators();
    let sp = lit(" ");
    let crlf = lit("\r\n");
    if let Some((header, taken)) = spec_parse_start_line(input) {
        lemma_find(input, sp);
        let a = spec_find(input, sp).unwrap();
        let rest = input.skip(a + 1);
        lemma_find(rest, sp);
        let b = spec_find(rest, sp).unwrap();
        let tail = rest.skip(b + 1);
        lemma_find(tail, crlf);
        let c = spec_find(tail, crlf).unwrap();
        let path = rest.take(b);
        assert(input.take(a) == header.method.token());
        assert(tail.take(c) == lit("HTTP/1.1"));
        assert forall|j: int| 0 <= j < b implies path[j] != SP by {
            if path[j] == SP {
                assert(rest.subrange(j, j + 1) =~= sp);
                assert(crate::text::occurs_at(rest, sp, j));
            }
        }
        assert(input.subrange(a, a + 1) == sp);
        assert(rest.subrange(b, b + 1) == sp);
        assert(tail.subrange(c, c + 2) == crlf);
        assert(input.take(taken) =~= input.take(a) + input.subrange(a, a + 1) + rest.take(b)
            + rest.subrange(b, b + 1) + tail.take(c) + tail.subrange(c, c + 2));
    }
}

/// What is read as a header field is the text of one: the bytes taken are
/// the text of a field with the name and the value that were read, and
/// neither holds a carriage return or a line feed.
pub proof fn lemma_field_is_text(input: Seq<u8>)
    ensures
        spec_parse_header_line(input) matches Some((name, value, taken)) ==> 0 < taken
            <= input.len() && input.take(taken) == field_text(name, value) && !name.contains(CR)
            && !name.contains(LF) && !value.contains(CR) && !value.contains(LF),
{
    lemma_separators();
    let crlf = lit("\r\n");
    let colon = lit(": ");
    if let Some((name, value, taken)) = spec_parse_header_line(input) {
        lemma_find(input, crlf);
        let end = spec_find(input, crlf).unwrap();
        let line = input.take(end);
        lemma_find(line, colon);
        let at = spec_find(line, colon).unwrap();
        assert forall|j: int| 0 <= j < name.len() implies name[j] != CR && name[j] != LF by {
            assert(line[j] == name[j]);
            assert(line.contains(line[j]));
        }
        assert forall|j: int| 0 <= j < value.len() implies value[j] != CR && value[j] != LF by {
            assert(line[at + 2 + j] == value[j]);
            assert(line.contains(line[at + 2 + j]));
        }
        assert(line.subrange(at, at + 2) == colon);
        assert(input.subrange(end, end + 2) == crlf);
        assert(input.take(taken) =~= line.take(at) + line.subrange(at, at + 2) + line.skip(at + 2)
            + input.subrange(end, end + 2));
    }
}

/// A header field reads as what it was written from: for every name without
/// a colon and every value, neither holding a carriage return or a line
/// feed, the text of the field, whatever follows it, is read as that name
/// and that value, and the whole line is taken.
pub proof fn lemma_parse_field_text(name: Seq<u8>, value: Seq<u8>, rest: Seq<u8>)
    requires
        !name.contains(COLON),
        !name.contains(CR),
        !name.contains(LF),
        !value.contains(CR),
        !value.contains(LF),
    ensures
        spec_parse_header_line(field_text(name, value) + rest) == Some(
            (name, value, field_text(name, value).len() as int),
        ),
{
    lemma_separators();
    reveal_strlit(": ");
    vstd::string::is_ascii_spec_bytes(": ");
    let colon = lit(": ");
    assert(colon =~= seq![COLON, SP]);
    let crlf = lit("\r\n");
    let line = name + colon + value;
    let input = field_text(name, value) + rest;
    assert forall|i: int| 0 <= i < line.len() implies line[i] != CR && line[i] != LF by {
        if i < name.len() {
            assert(name.contains(line[i]));
        } else if i >= name.len() + 2 {
            assert(value[i - name.len() - 2] == line[i]);
            assert(value.contains(line[i]));
        }
    }
    assert(input =~= line + crlf + rest);
    lemma_find_after(line, crlf, rest);
    assert(input.take(line.len() as int) =~= line);
    assert(line =~= name + colon + value);
    lemma_find_after(name, colon, value);
    assert(line.take(name.len() as int) =~= name);
    assert(line.skip(name.len() as int + 2) =~= value);
}

/// A header field at the head of a text is read, and reading goes on
/// behind it with the field added: for every name without a colon and every
/// value, neither holding a carriage return or a line feed.
pub proof fn lemma_parse_headers_text(
    name: Seq<u8>,
    value: Seq<u8>,
    rest: Seq<u8>,
    fields: Map<Seq<u8>, Seq<u8>>,
)
    requires
        !name.contains(COLON),
        !name.contains(CR),
        !name.contains(LF),
        !value.contains(CR),
        !value.contains(LF),
    ensures
        spec_parse_headers(field_text(name, value) + rest, fields) == spec_parse_headers(
            rest,
            fields.insert(name, value),
        ),
{
    lemma_separators();
    lemma_parse_field_text(name, value, rest);
    let field = field_text(name, value);
    assert((field + rest).skip(field.len() as int) =~= rest);
}

/// A request reads as what it was written from: for every method and every
/// path without a space, a start line followed by a text is read as a
/// request exactly when the text is a run of header fields, and the request
/// then holds that method, that path, those fields and no body.
pub proof fn lemma_parse_request_text(method: Method, path: Seq<u8>, fields: Seq<u8>)
    requires
        !path.contains(SP),
    ensures
        spec_parse_request(start_line_text(method, path) + fields) == match spec_parse_headers(
            fields,
            Map::empty(),
        ) {
            Some(header) => Some(
                RequestView {
                    start_line: HeaderView { method, path, version: HTTPVersion::Http1_1 },
                    header,
                    body: Seq::empty(),
                },
            ),
            None => None,
        },
{
    lemma_parse_start_line_text(method, path, fields);
    let line = start_line_text(method, path);
    assert((line + fields).skip(line.len() as int) =~= fields);
}

} // verus!
