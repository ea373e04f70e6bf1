//! The route table: what the server does with a request.

use crate::request::{
    field_text, lemma_parse_headers_text, lemma_parse_request_text, spec_parse_headers,
    spec_parse_request, start_line_text, Method, Request, RequestView, COLON,
};
use crate::response::{ContentType, Response, ResponseView, StatusCode};
use crate::text::{bytes_eq, lit, starts_with, CR, LF, SP};
use vstd::prelude::*;
use vstd::slice::{slice_subrange, slice_to_vec};

verus! {

/// What the route table decides for a request: the response itself, or the
/// file to read or write before there can be one.
#[derive(Debug, PartialEq, Eq)]
pub enum Decision {
    Respond(Response),
    ReadFile { name: Vec<u8> },
    WriteFile { name: Vec<u8>, data: Vec<u8> },
}

/// What a decision holds.
pub enum DecisionView {
    Respond(ResponseView),
    ReadFile { name: Seq<u8> },
    WriteFile { name: Seq<u8>, data: Seq<u8> },
}

impl View for Decision {
    type V = DecisionView;

    open spec fn view(&self) -> DecisionView {
        match self {
            Decision::Respond(response) => DecisionView::Respond(response@),
            Decision::ReadFile { name } => DecisionView::ReadFile { name: name@ },
            Decision::WriteFile { name, data } => DecisionView::WriteFile {
                name: name@,
                data: data@,
            },
        }
    }
}

/// The response that says a request succeeded, with `body` as plain text.
pub open spec fn ok_text(body: Seq<u8>) -> DecisionView {
    DecisionView::Respond(ResponseView::new(StatusCode::OK, ContentType::TextPlain, body))
}

/// The response that says there is nothing at the path, with an empty body.
pub open spec fn not_found() -> DecisionView {
    DecisionView::Respond(
        ResponseView::new(StatusCode::NotFound, ContentType::TextPlain, Seq::empty()),
    )
}

/// The path stands in no row of the route table.
pub open spec fn unrouted(path: Seq<u8>) -> bool {
    &&& path != lit("/")
    &&& path != lit("/user-agent")
    &&& !lit("/echo/").is_prefix_of(path)
    &&& !lit("/files/").is_prefix_of(path)
}

/// The route table. The rows are tried in order and the first that matches decides.
pub open spec fn spec_dispatch(request: RequestView) -> DecisionView {
    let path = request.start_line.path;
    if path == lit("/") {
        ok_text(Seq::empty())
    } else if path == lit("/user-agent") {
        if request.header.contains_key(lit("User-Agent")) {
            ok_text(request.header[lit("User-Agent")])
        } else {
            not_found()
        }
    } else if lit("/echo/").is_prefix_of(path) {
        ok_text(path.skip(lit("/echo/").len() as int))
    } else if lit("/files/").is_prefix_of(path) {
        let name = path.skip(lit("/files/").len() as int);
        match request.start_line.method {
            Method::Get => DecisionView::ReadFile { name },
            Method::Post => DecisionView::WriteFile { name, data: request.body },
        }
    } else {
        not_found()
    }
}

/// The prefixes and the exact paths of the route table exclude one another.
pub proof fn lemma_routes_disjoint(path: Seq<u8>)
    ensures
        lit("/echo/").is_prefix_of(path) ==> path != lit("/") && path != lit("/user-agent")
            && !lit("/files/").is_prefix_of(path),
        lit("/files/").is_prefix_of(path) ==> path != lit("/") && path != lit("/user-agent"),
        path == lit("/user-agent") ==> path != lit("/"),
{
    reveal_strlit("/");
    reveal_strlit("/user-agent");
    reveal_strlit("/echo/");
    reveal_strlit("/files/");
    vstd::string::is_ascii_spec_bytes("/");
    vstd::string::is_ascii_spec_bytes("/user-agent");
    vstd::string::is_ascii_spec_bytes("/echo/");
    vstd::string::is_ascii_spec_bytes("/files/");
    if lit("/echo/").is_prefix_of(path) {
        assert(path[1] == lit("/echo/")[1]);
        assert(lit("/user-agent")[1] != lit("/echo/")[1]);
        assert(lit("/files/")[1] != lit("/echo/")[1]);
    }
    if lit("/files/").is_prefix_of(path) {
        assert(path[1] == lit("/files/")[1]);
        assert(lit("/user-agent")[1] != lit("/files/")[1]);
    }
}

/// The name of the file that a request under `/files/` is about: the rest of
/// the path, as it was received.
pub fn get_file(request: &Request) -> (name: Vec<u8>)
    requires
        lit("/files/").is_prefix_of(request@.start_line.path),
    ensures
        name@ == request@.start_line.path.skip(lit("/files/").len() as int),
{
    let path = request.start_line.path.as_slice();
    slice_to_vec(slice_subrange(path, "/files/".as_bytes().len(), path.len()))
}

/// Routes a request.
///
/// `/` is answered with an empty page. `/user-agent` is answered with the
/// value of the `User-Agent` field, or is not found without it. `/echo/<rest>`
/// is answered with `<rest>`. `/files/<name>` asks for the file to be read
/// (GET) or to be written with the request's body (POST). Everything else is
/// not found. The method matters under `/files/` only.
pub fn dispatch(request: Request) -> (decision: Decision)
    ensures
        decision@ == spec_dispatch(request@),
        request@.start_line.path == lit("/") ==> decision@ == ok_text(Seq::empty()),
        request@.start_line.path == lit("/user-agent") ==> decision@ == if request@.header.contains_key(
            lit("User-Agent"),
        ) {
            ok_text(request@.header[lit("User-Agent")])
        } else {
            not_found()
        },
        lit("/echo/").is_prefix_of(request@.start_line.path) ==> decision@ == ok_text(
            request@.start_line.path.skip(lit("/echo/").len() as int),
        ),
        unrouted(request@.start_line.path) ==> decision@ == not_found(),
        decision@ matches DecisionView::Respond(response) ==> response.well_formed(),
{
    proof {
        lemma_routes_disjoint(request@.start_line.path);
    }
    let path = request.start_line.path.as_slice();
    if bytes_eq(path, "/".as_bytes()) {
        Decision::Respond(Response::new(StatusCode::OK, ContentType::TextPlain, Vec::new()))
    } else if bytes_eq(path, "/user-agent".as_bytes()) {
        match request.header.get("User-Agent".as_bytes()) {
            Some(agent) => Decision::Respond(
                Response::new(StatusCode::OK, ContentType::TextPlain, slice_to_vec(agent.as_slice())),
            ),
            None => Decision::Respond(
                Response::new(StatusCode::NotFound, ContentType::TextPlain, Vec::new()),
            ),
        }
    } else if starts_with(path, "/echo/".as_bytes()) {
        let rest = slice_subrange(path, "/echo/".as_bytes().len(), path.len());
        Decision::Respond(Response::new(StatusCode::OK, ContentType::TextPlain, slice_to_vec(rest)))
    } else if starts_with(path, "/files/".as_bytes()) {
        let name = get_file(&request);
        match request.start_line.method {
            Method::Get => Decision::ReadFile { name },
            Method::Post => Decision::WriteFile { name, data: request.body },
        }
    } else {
        Decision::Respond(Response::new(StatusCode::NotFound, ContentType::TextPlain, Vec::new()))
    }
}

/// The paths and the field name of the route table hold no space, and the
/// field name no colon or line end.
proof fn lemma_route_tokens()
    ensures
        !lit("/").contains(SP),
        !lit("/echo/").contains(SP),
        !lit("/user-agent").contains(SP),
        !lit("User-Agent").contains(COLON),
        !lit("User-Agent").contains(CR),
        !lit("User-Agent").contains(LF),
{
    reveal_strlit("/");
    reveal_strlit("/echo/");
    reveal_strlit("/user-agent");
    reveal_strlit("User-Agent");
    vstd::string::is_ascii_spec_bytes("/");
    assert(lit("/") =~= seq![47u8]);
    vstd::string::is_ascii_spec_bytes("/echo/");
    vstd::string::is_ascii_spec_bytes("/user-agent");
    vstd::string::is_ascii_spec_bytes("User-Agent");
    assert(lit("/echo/") =~= seq![47u8, 101u8, 99u8, 104u8, 111u8, 47u8]);
    assert(lit("/user-agent") =~= seq![
        47u8,
        117u8,
        115u8,
        101u8,
        114u8,
        45u8,
        97u8,
        103u8,
        101u8,
        110u8,
        116u8,
    ]);
    assert(lit("User-Agent") =~= seq![
        85u8,
        115u8,
        101u8,
        114u8,
        45u8,
        65u8,
        103u8,
        101u8,
        110u8,
        116u8,
    ]);
}

/// A request for `/` is answered with an empty page: for every method and
/// every run of header fields, the text of that request is read as a
/// request, and the answer says that the request succeeded, holds no body,
/// and announces the length 0.
pub proof fn lemma_root(method: Method, fields: Seq<u8>)
    requires
        spec_parse_headers(fields, Map::empty()) is Some,
    ensures
        spec_parse_request(start_line_text(method, lit("/")) + fields) matches Some(request)
            && spec_dispatch(request) == ok_text(Seq::empty()),
        ok_text(Seq::empty()) matches DecisionView::Respond(response) && response.header.code
            == StatusCode::OK && response.body.len() == 0 && response.content_length == 0,
{
    lemma_route_tokens();
    lemma_parse_request_text(method, lit("/"), fields);
}

/// A request for `/echo/<rest>` is answered with `<rest>`: for every method,
/// every `rest` without a space and every run of header fields, the text of
/// that request is read as a request, and the answer says that the request
/// succeeded, holds `rest` byte for byte as its body, and announces the
/// length of `rest`.
pub proof fn lemma_echo(method: Method, rest: Seq<u8>, fields: Seq<u8>)
    requires
        !rest.contains(SP),
        spec_parse_headers(fields, Map::empty()) is Some,
    ensures
        spec_parse_request(start_line_text(method, lit("/echo/") + rest) + fields) matches Some(
            request,
        ) && spec_dispatch(request) == ok_text(rest),
        ok_text(rest) matches DecisionView::Respond(response) && response.header.code
            == StatusCode::OK && response.body == rest && response.content_length == rest.len(),
{
    lemma_route_tokens();
    let path = lit("/echo/") + rest;
    lemma_parse_request_text(method, path, fields);
    lemma_routes_disjoint(path);
    assert(path.subrange(0, lit("/echo/").len() as int) =~= lit("/echo/"));
    assert(path.skip(lit("/echo/").len() as int) =~= rest);
}

/// A request for `/user-agent` that carries the field `User-Agent` is
/// answered with the value of that field: for every method and every value
/// without a carriage return or a line feed, the text of that request is read
/// as a request, and the answer says that the request succeeded and holds
/// the value as its body.
pub proof fn lemma_user_agent(method: Method, agent: Seq<u8>)
    requires
        !agent.contains(CR),
        !agent.contains(LF),
    ensures
        spec_parse_request(
            start_line_text(method, lit("/user-agent")) + (field_text(lit("User-Agent"), agent)
                + lit("\r\n")),
        ) matches Some(request) && spec_dispatch(request) == ok_text(agent),
{
    lemma_route_tokens();
    let path = lit("/user-agent");
    let end = lit("\r\n");
    let fields = Map::<Seq<u8>, Seq<u8>>::empty().insert(lit("User-Agent"), agent);
    lemma_parse_headers_text(lit("User-Agent"), agent, end, Map::empty());
    assert(spec_parse_headers(end, fields) == Some(fields));
    lemma_parse_request_text(method, path, field_text(lit("User-Agent"), agent) + end);
    lemma_routes_disjoint(path);
}

/// A request for `/user-agent` that carries no field is not found: for every
/// method, the text of that request is read as a request, and the answer
/// says that there is nothing at the path and holds no body.
pub proof fn lemma_user_agent_missing(method: Method)
    ensures
        spec_parse_request(start_line_text(method, lit("/user-agent")) + lit("\r\n")) matches Some(
            request,
        ) && spec_dispatch(request) == not_found(),
{
    lemma_route_tokens();
    let path = lit("/user-agent");
    lemma_parse_request_text(method, path, lit("\r\n"));
    lemma_routes_disjoint(path);
}

/// A request for a path that stands in no row of the route table is not
/// found: for every method, every such path without a space and every run of
/// header fields, the text of that request is read as a request, and the
/// answer says that there is nothing at the path and holds no body.
pub proof fn lemma_unrouted(method: Method, path: Seq<u8>, fields: Seq<u8>)
    requires
        unrouted(path),
        !path.contains(SP),
        spec_parse_headers(fields, Map::empty()) is Some,
    ensures
        spec_parse_request(start_line_text(method, path) + fields) matches Some(request)
            && spec_dispatch(request) == not_found(),
        not_found() matches DecisionView::Respond(response) && response.header.code
            == StatusCode::NotFound && response.body.len() == 0 && response.content_length == 0,
{
    lemma_parse_request_text(method, path, fields);
}

} // verus!
