//! A sans-I/O client for a document database's wire protocol: the value
//! model, the query tree with its exact wire text, the reply envelope, and
//! the connection state machine with its byte framing.

pub mod value;
pub mod text;
pub mod number;
pub mod json;
pub mod datum;
pub mod ql2;
pub mod query;
pub mod wire;
pub mod connection;
pub mod rethink;
pub mod response;
