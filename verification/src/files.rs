//! The answers to requests under `/files/`, from what the byte store said.
//!
//! The store itself is not here: whoever drives the server reads or writes
//! the file that `dispatch` names and reports what came of it.

use crate::dispatch::{spec_dispatch, DecisionView};
use crate::request::{Method, RequestView};
use crate::response::{ContentType, Response, ResponseView, StatusCode};
use crate::text::lit;
use vstd::prelude::*;
use vstd::string::StrSliceExecFns;

verus! {

/// What came of reading a file.
#[derive(Debug, PartialEq, Eq)]
pub enum ReadOutcome {
    /// The file is there, and these are its bytes.
    Found(Vec<u8>),
    /// The store has no file of that name.
    NotFound,
    /// The store failed in any other way.
    Failed,
}

/// What a read outcome holds.
pub enum ReadOutcomeView {
    Found(Seq<u8>),
    NotFound,
    Failed,
}

impl View for ReadOutcome {
    type V = ReadOutcomeView;

    open spec fn view(&self) -> ReadOutcomeView {
        match self {
            ReadOutcome::Found(bytes) => ReadOutcomeView::Found(bytes@),
            ReadOutcome::NotFound => ReadOutcomeView::NotFound,
            ReadOutcome::Failed => ReadOutcomeView::Failed,
        }
    }
}

/// What came of writing a file.
#[derive(Clone, Copy, Debug, PartialEq, Eq, Structural)]
pub enum WriteOutcome {
    /// The file now holds the bytes.
    Written,
    /// The store failed.
    Failed,
}

/// The response that says the store failed.
pub open spec fn internal_error() -> ResponseView {
    ResponseView::new(
        StatusCode::InternalServerError,
        ContentType::TextPlain,
        lit("Internal server error"),
    )
}

/// The answer to a GET under `/files/`.
pub open spec fn spec_get_file_response(outcome: ReadOutcomeView) -> ResponseView {
    match outcome {
        ReadOutcomeView::Found(bytes) => ResponseView::new(
            StatusCode::OK,
            ContentType::ApplicationOctetStream,
            bytes,
        ),
        ReadOutcomeView::NotFound => ResponseView::new(
            StatusCode::NotFound,
            ContentType::TextPlain,
            lit("Not found"),
        ),
        ReadOutcomeView::Failed => internal_error(),
    }
}

/// The answer to a POST under `/files/`.
pub open spec fn spec_post_file_response(outcome: WriteOutcome) -> ResponseView {
    match outcome {
        WriteOutcome::Written => ResponseView::new(
            StatusCode::Created,
            ContentType::TextPlain,
            Seq::empty(),
        ),
        WriteOutcome::Failed => internal_error(),
    }
}

/// Answers a GET under `/files/`: the file's bytes, served as an octet
/// stream, where the file was found; `Not found` where the store has no such
/// file; `Internal server error` where the store failed otherwise.
pub fn process_get_file(outcome: ReadOutcome) -> (response: Response)
    ensures
        response@ == spec_get_file_response(outcome@),
        response@.well_formed(),
{
    match outcome {
        ReadOutcome::Found(bytes) => Response::new(
            StatusCode::OK,
            ContentType::ApplicationOctetStream,
            bytes,
        ),
        ReadOutcome::NotFound => Response::new(
            StatusCode::NotFound,
            ContentType::TextPlain,
            "Not found".as_bytes_vec(),
        ),
        ReadOutcome::Failed => Response::new(
            StatusCode::InternalServerError,
            ContentType::TextPlain,
            "Internal server error".as_bytes_vec(),
        ),
    }
}

/// Answers a POST under `/files/`: created, with an empty body, where the
/// file was written; `Internal server error` where the store failed.
pub fn process_post_file(outcome: WriteOutcome) -> (response: Response)
    ensures
        response@ == spec_post_file_response(outcome),
        response@.well_formed(),
{
    match outcome {
        WriteOutcome::Written => Response::new(
            StatusCode::Created,
            ContentType::TextPlain,
            Vec::new(),
        ),
        WriteOutcome::Failed => Response::new(
            StatusCode::InternalServerError,
            ContentType::TextPlain,
            "Internal server error".as_bytes_vec(),
        ),
    }
}

/// What reading `name` gives in a store that holds the files `store` and does not fail.
pub open spec fn store_read(store: Map<Seq<u8>, Seq<u8>>, name: Seq<u8>) -> ReadOutcomeView {
    if store.contains_key(name) {
        ReadOutcomeView::Found(store[name])
    } else {
        ReadOutcomeView::NotFound
    }
}

/// The files that a store holds once `data` was written to `name`.
pub open spec fn store_write(store: Map<Seq<u8>, Seq<u8>>, name: Seq<u8>, data: Seq<u8>) -> Map<
    Seq<u8>,
    Seq<u8>,
> {
    store.insert(name, data)
}

/// What was posted to a path under `/files/` is what a GET of the same path
/// is answered with, as an octet stream, if the store kept it: the POST asks
/// for the body to be written under the name for which the GET asks, and
/// what is read back is served whole.
pub proof fn lemma_post_then_get(post: RequestView, get: RequestView, store: Map<Seq<u8>, Seq<u8>>)
    requires
        post.start_line.method == Method::Post,
        get.start_line.method == Method::Get,
        lit("/files/").is_prefix_of(post.start_line.path),
        get.start_line.path == post.start_line.path,
    ensures
        spec_dispatch(post) matches DecisionView::WriteFile { name, data } && data == post.body
            && spec_dispatch(get) == (DecisionView::ReadFile { name }) && spec_get_file_response(
            store_read(store_write(store, name, data), name),
        ) == ResponseView::new(StatusCode::OK, ContentType::ApplicationOctetStream, post.body),
{
    crate::dispatch::lemma_routes_disjoint(post.start_line.path);
}

/// A GET under `/files/` for a name that the store does not hold is answered
/// with `Not found`.
pub proof fn lemma_get_missing(get: RequestView, store: Map<Seq<u8>, Seq<u8>>)
    requires
        get.start_line.method == Method::Get,
        lit("/files/").is_prefix_of(get.start_line.path),
        !store.contains_key(get.start_line.path.skip(lit("/files/").len() as int)),
    ensures
        spec_dispatch(get) matches DecisionView::ReadFile { name } && spec_get_file_response(
            store_read(store, name),
        ) == ResponseView::new(StatusCode::NotFound, ContentType::TextPlain, lit("Not found")),
{
    crate::dispatch::lemma_routes_disjoint(get.start_line.path);
}

} // verus!
