//! The core of a minimal HTTP/1.1 server, as plain functions on bytes.
//!
//! A connection carries one request and one response. `connection` is the
//! state machine that takes it from the first line read to the last byte
//! written; it decides and leaves all reading and writing to its driver.
//! `request` holds the grammar of the request, `dispatch` the route table,
//! `files` the answers to what the byte store reports, and `response` the
//! bytes that go out. `headers`, `decimal` and `text` are what these are
//! built from.
//!
//! Every executable function carries a contract over a mathematical model
//! of its arguments and result, and none of them panics.

pub mod connection;
pub mod decimal;
pub mod dispatch;
pub mod files;
pub mod headers;
pub mod request;
pub mod response;
pub mod text;
