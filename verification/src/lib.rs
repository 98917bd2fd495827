//! A message-dispatch runtime for nodes that talk to a test harness over
//! line-delimited JSON.
//!
//! A node reads one envelope per line, decides how to answer, and writes
//! zero or more envelopes, one per line. This library is the part that every
//! node shares: the envelope model, the codec, the handler contract and the
//! dispatch state machine. Reading and writing the streams is left to the
//! program that embeds it.
//!
//! - [`error`]: the protocol's error kinds and their codes, and why a line
//!   fails to decode.
//! - [`json`]: JSON values, objects, parsing and printing, which are
//!   `serde_json`'s, with what the library takes for granted of them.
//! - [`message`]: requests and responses, and how a request is read out of an
//!   envelope.
//! - [`codec`]: from a line to a request, and from a response to a line.
//! - [`actor`]: the handler contract.
//! - [`protocol`]: the dispatch rules as mathematics, and what follows from
//!   them.
//! - [`runtime`]: the runtime that owns a handler and handles line after line.
//! - [`run`]: whole runs of a node as mathematics, and what holds of them.

pub mod actor;
pub mod codec;
pub mod error;
pub mod json;
pub mod message;
pub mod protocol;
pub mod run;
pub mod runtime;
