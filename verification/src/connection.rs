//! One connection's way through the server, as a state machine.
//!
//! The machine reads and writes nothing. Whoever drives it performs the
//! action that a step asks for and hands the outcome back as the next event.
//! A connection answers one request and is closed.

use crate::dispatch::{dispatch, spec_dispatch, Decision, DecisionView};
use crate::files::{
    process_get_file, process_post_file, spec_get_file_response, spec_post_file_response,
    ReadOutcome, ReadOutcomeView, WriteOutcome,
};
use crate::request::{spec_content_length, spec_parse_request, Request, RequestView};
use crate::text::{bytes_eq, lit, push_bytes};
use vstd::prelude::*;

verus! {

/// The file operation that a connection waits for.
#[derive(Clone, Copy, Debug, PartialEq, Eq, Structural)]
pub enum FileOperation {
    Read,
    Write,
}

/// The worker pool that holds a connection.
#[derive(Clone, Copy, Debug, PartialEq, Eq, Structural)]
pub enum Stage {
    /// Reading and parsing the request.
    First,
    /// Dispatching the request and writing the response.
    Second,
    /// Neither: the connection is over.
    Over,
}

/// The state of a connection.
#[derive(Debug)]
pub enum Connection {
    /// Accepted, nothing read yet.
    Accepted,
    /// Reading the lines that come before the body; `text` is what came so far.
    Reading { text: Vec<u8> },
    /// The start line and the fields are parsed; `length` bytes of body are to come.
    ReadingBody { request: Request, length: usize },
    /// The request is whole and waits for the second stage.
    Parsed { request: Request },
    /// Waiting for the byte store.
    Dispatching { operation: FileOperation },
    /// The response is on its way out.
    Writing,
    /// The response went out and the connection was closed.
    Closed,
    /// The connection was given up without a response.
    Failed,
}

/// What a state holds.
pub enum ConnectionView {
    Accepted,
    Reading { text: Seq<u8> },
    ReadingBody { request: RequestView, length: usize },
    Parsed { request: RequestView },
    Dispatching { operation: FileOperation },
    Writing,
    Closed,
    Failed,
}

impl View for Connection {
    type V = ConnectionView;

    open spec fn view(&self) -> ConnectionView {
        match self {
            Connection::Accepted => ConnectionView::Accepted,
            Connection::Reading { text } => ConnectionView::Reading { text: text@ },
            Connection::ReadingBody { request, length } => ConnectionView::ReadingBody {
                request: request@,
                length: *length,
            },
            Connection::Parsed { request } => ConnectionView::Parsed { request: request@ },
            Connection::Dispatching { operation } => ConnectionView::Dispatching {
                operation: *operation,
            },
            Connection::Writing => ConnectionView::Writing,
            Connection::Closed => ConnectionView::Closed,
            Connection::Failed => ConnectionView::Failed,
        }
    }
}

/// What happened on a connection.
#[derive(Debug)]
pub enum Event {
    /// A worker took the connection up.
    Scheduled,
    /// A line came in; it holds its line end.
    Line(Vec<u8>),
    /// The stream ended before another line came in.
    EndOfStream,
    /// The bytes of the body came in, or fewer where the stream ended early.
    Body(Vec<u8>),
    /// The byte store answered a read.
    FileRead(ReadOutcome),
    /// The byte store answered a write.
    FileWritten(WriteOutcome),
    /// The response went out whole.
    Sent,
    /// Reading from the stream or writing to it failed.
    StreamError,
}

/// What an event holds.
pub enum EventView {
    Scheduled,
    Line(Seq<u8>),
    EndOfStream,
    Body(Seq<u8>),
    FileRead(ReadOutcomeView),
    FileWritten(WriteOutcome),
    Sent,
    StreamError,
}

impl View for Event {
    type V = EventView;

    open spec fn view(&self) -> EventView {
        match self {
            Event::Scheduled => EventView::Scheduled,
            Event::Line(line) => EventView::Line(line@),
            Event::EndOfStream => EventView::EndOfStream,
            Event::Body(bytes) => EventView::Body(bytes@),
            Event::FileRead(outcome) => EventView::FileRead(outcome@),
            Event::FileWritten(outcome) => EventView::FileWritten(*outcome),
            Event::Sent => EventView::Sent,
            Event::StreamError => EventView::StreamError,
        }
    }
}

/// What is to be done next for a connection.
#[derive(Debug, PartialEq, Eq)]
pub enum Action {
    /// Read one line from the stream, up to and with its line feed.
    ReadLine,
    /// Read exactly `length` bytes from the stream.
    ReadBody { length: usize },
    /// Pass the connection on to the second stage.
    HandOver,
    /// Read the file `name` from the byte store.
    ReadFile { name: Vec<u8> },
    /// Write `data` to the file `name` in the byte store.
    WriteFile { name: Vec<u8>, data: Vec<u8> },
    /// Write `bytes` to the stream.
    Send { bytes: Vec<u8> },
    /// Close the stream; nothing more happens on this connection.
    Close,
}

/// What an action holds.
pub enum ActionView {
    ReadLine,
    ReadBody { length: usize },
    HandOver,
    ReadFile { name: Seq<u8> },
    WriteFile { name: Seq<u8>, data: Seq<u8> },
    Send { bytes: Seq<u8> },
    Close,
}

impl View for Action {
    type V = ActionView;

    open spec fn view(&self) -> ActionView {
        match self {
            Action::ReadLine => ActionView::ReadLine,
            Action::ReadBody { length } => ActionView::ReadBody { length: *length },
            Action::HandOver => ActionView::HandOver,
            Action::ReadFile { name } => ActionView::ReadFile { name: name@ },
            Action::WriteFile { name, data } => ActionView::WriteFile { name: name@, data: data@ },
            Action::Send { bytes } => ActionView::Send { bytes: bytes@ },
            Action::Close => ActionView::Close,
        }
    }
}

impl ConnectionView {
    /// The stage that holds a connection in this state.
    pub open spec fn stage(self) -> Stage {
        match self {
            ConnectionView::Accepted => Stage::First,
            ConnectionView::Reading { .. } => Stage::First,
            ConnectionView::ReadingBody { .. } => Stage::First,
            ConnectionView::Parsed { .. } => Stage::Second,
            ConnectionView::Dispatching { .. } => Stage::Second,
            ConnectionView::Writing => Stage::Second,
            ConnectionView::Closed => Stage::Over,
            ConnectionView::Failed => Stage::Over,
        }
    }

    /// How far a connection has come; no step leads to a lower number.
    pub open spec fn progress(self) -> nat {
        match self {
            ConnectionView::Accepted => 0,
            ConnectionView::Reading { .. } => 1,
            ConnectionView::ReadingBody { .. } => 2,
            ConnectionView::Parsed { .. } => 3,
            ConnectionView::Dispatching { .. } => 4,
            ConnectionView::Writing => 5,
            ConnectionView::Closed => 6,
            ConnectionView::Failed => 6,
        }
    }
}

/// The step that gives a connection up.
pub open spec fn give_up() -> (ConnectionView, ActionView) {
    (ConnectionView::Failed, ActionView::Close)
}

/// The step once all that comes before the body is in: the text is parsed,
/// and the request either waits for its body or is whole. A text that is no
/// request, or that announces a length that is no number, ends the connection.
pub open spec fn spec_head_complete(text: Seq<u8>) -> (ConnectionView, ActionView) {
    match spec_parse_request(text) {
        None => give_up(),
        Some(request) => match spec_content_length(request.header) {
            Err(_) => give_up(),
            Ok(None) => (ConnectionView::Parsed { request }, ActionView::HandOver),
            Ok(Some(length)) => (
                ConnectionView::ReadingBody { request, length },
                ActionView::ReadBody { length },
            ),
        },
    }
}

/// The step that sends a response.
pub open spec fn spec_send(response: crate::response::ResponseView) -> (ConnectionView, ActionView) {
    (ConnectionView::Writing, ActionView::Send { bytes: response.wire() })
}

/// The step of the second stage on a whole request.
pub open spec fn spec_start_response(request: RequestView) -> (ConnectionView, ActionView) {
    match spec_dispatch(request) {
        DecisionView::Respond(response) => spec_send(response),
        DecisionView::ReadFile { name } => (
            ConnectionView::Dispatching { operation: FileOperation::Read },
            ActionView::ReadFile { name },
        ),
        DecisionView::WriteFile { name, data } => (
            ConnectionView::Dispatching { operation: FileOperation::Write },
            ActionView::WriteFile { name, data },
        ),
    }
}

/// The state that follows `state` on `event`, and the action to perform.
///
/// An event that the state does not wait for ends the connection, and so
/// does every failure of the stream: there is no second try.
pub open spec fn spec_step(state: ConnectionView, event: EventView) -> (ConnectionView, ActionView) {
    match (state, event) {
        (ConnectionView::Accepted, EventView::Scheduled) => (
            ConnectionView::Reading { text: Seq::empty() },
            ActionView::ReadLine,
        ),
        (ConnectionView::Reading { text }, EventView::Line(line)) => {
            if line == lit("\r\n") {
                spec_head_complete(text + line)
            } else {
                (ConnectionView::Reading { text: text + line }, ActionView::ReadLine)
            }
        },
        (ConnectionView::Reading { text }, EventView::EndOfStream) => spec_head_complete(text),
        (ConnectionView::ReadingBody { request, length }, EventView::Body(bytes)) => {
            if bytes.len() == length {
                (
                    ConnectionView::Parsed { request: RequestView { body: bytes, ..request } },
                    ActionView::HandOver,
                )
            } else {
                give_up()
            }
        },
        (ConnectionView::Parsed { request }, EventView::Scheduled) => spec_start_response(request),
        (
            ConnectionView::Dispatching { operation: FileOperation::Read },
            EventView::FileRead(outcome),
        ) => spec_send(spec_get_file_response(outcome)),
        (
            ConnectionView::Dispatching { operation: FileOperation::Write },
            EventView::FileWritten(outcome),
        ) => spec_send(spec_post_file_response(outcome)),
        (ConnectionView::Writing, EventView::Sent) => (ConnectionView::Closed, ActionView::Close),
        (ConnectionView::Closed, _) => (ConnectionView::Closed, ActionView::Close),
        _ => give_up(),
    }
}

/// Parses the text that came before the body and decides how to go on.
fn head_complete(text: Vec<u8>) -> (r: (Connection, Action))
    ensures
        (r.0@, r.1@) == spec_head_complete(text@),
{
    match Request::from_bytes(text.as_slice()) {
        Err(_) => (Connection::Failed, Action::Close),
        Ok(request) => match request.content_length() {
            Err(_) => (Connection::Failed, Action::Close),
            Ok(None) => (Connection::Parsed { request }, Action::HandOver),
            Ok(Some(length)) => (
                Connection::ReadingBody { request, length },
                Action::ReadBody { length },
            ),
        },
    }
}

/// Routes a whole request and decides how to go on.
fn start_response(request: Request) -> (r: (Connection, Action))
    ensures
        (r.0@, r.1@) == spec_start_response(request@),
{
    match dispatch(request) {
        Decision::Respond(response) => (Connection::Writing, Action::Send { bytes: response.to_bytes() }),
        Decision::ReadFile { name } => (
            Connection::Dispatching { operation: FileOperation::Read },
            Action::ReadFile { name },
        ),
        Decision::WriteFile { name, data } => (
            Connection::Dispatching { operation: FileOperation::Write },
            Action::WriteFile { name, data },
        ),
    }
}

impl Connection {
    /// A connection that was just accepted.
    pub fn new() -> (r: Connection)
        ensures
            r@ == ConnectionView::Accepted,
    {
        Connection::Accepted
    }

    /// The stage that holds the connection.
    pub fn stage(&self) -> (r: Stage)
        ensures
            r == self@.stage(),
    {
        match self {
            Connection::Accepted => Stage::First,
            Connection::Reading { .. } => Stage::First,
            Connection::ReadingBody { .. } => Stage::First,
            Connection::Parsed { .. } => Stage::Second,
            Connection::Dispatching { .. } => Stage::Second,
            Connection::Writing => Stage::Second,
            Connection::Closed => Stage::Over,
            Connection::Failed => Stage::Over,
        }
    }

    /// Takes the connection one step on: the state that follows on `event`,
    /// and what is to be done next.
    pub fn step(self, event: Event) -> (r: (Connection, Action))
        ensures
            (r.0@, r.1@) == spec_step(self@, event@),
    {
        match (self, event) {
            (Connection::Accepted, Event::Scheduled) => (
                Connection::Reading { text: Vec::new() },
                Action::ReadLine,
            ),
            (Connection::Reading { text }, Event::Line(line)) => {
                let mut text = text;
                push_bytes(&mut text, line.as_slice());
                if bytes_eq(line.as_slice(), "\r\n".as_bytes()) {
                    head_complete(text)
                } else {
                    (Connection::Reading { text }, Action::ReadLine)
                }
            },
            (Connection::Reading { text }, Event::EndOfStream) => head_complete(text),
            (Connection::ReadingBody { request, length }, Event::Body(bytes)) => {
                if bytes.len() == length {
                    let request = Request {
                        start_line: request.start_line,
                        header: request.header,
                        body: bytes,
                    };
                    (Connection::Parsed { request }, Action::HandOver)
                } else {
                    (Connection::Failed, Action::Close)
                }
            },
            (Connection::Parsed { request }, Event::Scheduled) => start_response(request),
            (
                Connection::Dispatching { operation: FileOperation::Read },
                Event::FileRead(outcome),
            ) => {
                let response = process_get_file(outcome);
                (Connection::Writing, Action::Send { bytes: response.to_bytes() })
            },
            (
                Connection::Dispatching { operation: FileOperation::Write },
                Event::FileWritten(outcome),
            ) => {
                let response = process_post_file(outcome);
                (Connection::Writing, Action::Send { bytes: response.to_bytes() })
            },
            (Connection::Writing, Event::Sent) => (Connection::Closed, Action::Close),
            (Connection::Closed, _) => (Connection::Closed, Action::Close),
            _ => (Connection::Failed, Action::Close),
        }
    }
}

/// Where a connection stands after a run of events, and the actions that
/// its steps asked for, in order.
pub open spec fn spec_run(state: ConnectionView, events: Seq<EventView>) -> (
    ConnectionView,
    Seq<ActionView>,
)
    decreases events.len(),
{
    if events.len() == 0 {
        (state, Seq::empty())
    } else {
        let before = spec_run(state, events.drop_last());
        let step = spec_step(before.0, events.last());
        (step.0, before.1.push(step.1))
    }
}

/// The events of a trace that belong to the connection with number `k`, in order.
pub open spec fn events_of(trace: Seq<(int, EventView)>, k: int) -> Seq<EventView>
    decreases trace.len(),
{
    if trace.len() == 0 {
        Seq::empty()
    } else if trace.last().0 == k {
        events_of(trace.drop_last(), k).push(trace.last().1)
    } else {
        events_of(trace.drop_last(), k)
    }
}

/// Many connections served at once: each entry of the trace is an event on
/// the connection that it numbers, and the entries come in whatever order
/// the connections happen to make progress. The result holds, for every
/// connection, where it stands and what its steps asked for.
pub open spec fn spec_serve(connections: Seq<ConnectionView>, trace: Seq<(int, EventView)>) -> Seq<
    (ConnectionView, Seq<ActionView>),
>
    decreases trace.len(),
{
    if trace.len() == 0 {
        Seq::new(connections.len(), |i: int| (connections[i], Seq::empty()))
    } else {
        let before = spec_serve(connections, trace.drop_last());
        let (k, event) = trace.last();
        if 0 <= k < before.len() {
            let step = spec_step(before[k].0, event);
            before.update(k, (step.0, before[k].1.push(step.1)))
        } else {
            before
        }
    }
}

/// Connections do not mix: however the events of many connections are
/// interleaved, each connection ends where its own events alone would have
/// taken it, and is asked for the actions that its own events alone would
/// have asked for.
pub proof fn lemma_connections_do_not_mix(
    connections: Seq<ConnectionView>,
    trace: Seq<(int, EventView)>,
    k: int,
)
    requires
        0 <= k < connections.len(),
    ensures
        spec_serve(connections, trace).len() == connections.len(),
        spec_serve(connections, trace)[k] == spec_run(connections[k], events_of(trace, k)),
    decreases trace.len(),
{
    if trace.len() > 0 {
        lemma_connections_do_not_mix(connections, trace.drop_last(), k);
        if trace.last().0 == k {
            assert(events_of(trace, k).drop_last() =~= events_of(trace.drop_last(), k));
        }
    }
}

/// A connection that is closed or was given up stays as it is, whatever
/// happens, and asks for nothing but to be closed.
pub proof fn lemma_over_is_over(state: ConnectionView, event: EventView)
    requires
        state.stage() == Stage::Over,
    ensures
        spec_step(state, event) == (state, ActionView::Close),
{
}

/// No step leads back: a connection never returns to a state that it left
/// behind, and so never from the second stage to the first.
pub proof fn lemma_no_step_back(state: ConnectionView, event: EventView)
    ensures
        spec_step(state, event).0.progress() >= state.progress(),
        state.stage() == Stage::Second ==> spec_step(state, event).0.stage() != Stage::First,
{
}

/// A connection is handed over exactly when it passes from the first stage
/// to the second, and then it holds a whole request.
pub proof fn lemma_hand_over(state: ConnectionView, event: EventView)
    ensures
        spec_step(state, event).1 == ActionView::HandOver <==> state.stage() == Stage::First
            && spec_step(state, event).0.stage() == Stage::Second,
        spec_step(state, event).1 == ActionView::HandOver ==> spec_step(state, event).0 is Parsed,
{
}

/// Bytes go out once at most: a step asks to send exactly when it leads
/// from another state into `Writing`, and nothing leads from `Writing` back
/// into it.
pub proof fn lemma_one_response(state: ConnectionView, event: EventView)
    ensures
        spec_step(state, event).1 is Send <==> spec_step(state, event).0 is Writing,
        state is Writing ==> !(spec_step(state, event).0 is Writing),
{
}

/// What goes out is the rendering of a response that announces the length
/// of its own body.
pub proof fn lemma_sent_is_well_formed(state: ConnectionView, event: EventView)
    ensures
        spec_step(state, event).1 matches ActionView::Send { bytes } ==> exists|
            response: crate::response::ResponseView,
        |
            response.well_formed() && #[trigger] response.wire() == bytes,
{
    match (state, event) {
        (ConnectionView::Parsed { request }, EventView::Scheduled) => {
            if let DecisionView::Respond(response) = spec_dispatch(request) {
                assert(response.well_formed() && response.wire() == response.wire());
            }
        },
        (
            ConnectionView::Dispatching { operation: FileOperation::Read },
            EventView::FileRead(outcome),
        ) => {
            let response = spec_get_file_response(outcome);
            assert(response.well_formed() && response.wire() == response.wire());
        },
        (
            ConnectionView::Dispatching { operation: FileOperation::Write },
            EventView::FileWritten(outcome),
        ) => {
            let response = spec_post_file_response(outcome);
            assert(response.well_formed() && response.wire() == response.wire());
        },
        _ => {},
    }
}

/// A text that is no request costs its connection and nothing else: when the
/// empty line comes, or the stream ends, behind a text that the grammar
/// refuses, the connection is given up and nothing is sent.
pub proof fn lemma_malformed_gives_up(text: Seq<u8>)
    ensures
        spec_parse_request(text + lit("\r\n")) is None ==> spec_step(
            ConnectionView::Reading { text },
            EventView::Line(lit("\r\n")),
        ) == give_up(),
        spec_parse_request(text) is None ==> spec_step(
            ConnectionView::Reading { text },
            EventView::EndOfStream,
        ) == give_up(),
{
}

} // verus!
