//! The protocol's error kinds and their wire codes.

use vstd::prelude::*;

verus! {

/// The smallest code that an application may use for an error of its own.
pub const CUSTOM_CODE_FLOOR: u64 = 10000;

/// An error that a handler or the runtime reports to a peer.
#[derive(Debug)]
pub enum Error {
    /// The operation could not be completed within a timeout.
    Timeout,
    /// The request was addressed to a node that does not exist.
    NodeNotFound,
    /// The operation is not supported by this node.
    NotSupported,
    /// The operation cannot be performed at this time.
    TemporarilyUnavailable,
    /// The request did not conform to what the node expects.
    MalformedRequest,
    /// A general, indefinite error: the operation may or may not have taken place.
    Crash,
    /// A general, definite error: the operation has not taken place.
    Abort,
    /// The request names a key that does not exist.
    KeyDoesNotExist,
    /// The request would create a key that already exists.
    KeyAlreadyExist,
    /// A condition that the operation expected did not hold.
    PreconditionFailed,
    /// The transaction was aborted because it conflicts with another one.
    TxnConflict,
    /// An application-defined error: a code, which must be at least
    /// `CUSTOM_CODE_FLOOR`, and a free text.
    CustomError((u64, String)),
}

impl Error {
    /// The wire code of the error, if it has one: the fixed code of a protocol
    /// kind, and the code of a custom error that lies in the range left to
    /// applications.
    pub open spec fn code(self) -> Option<u64> {
        match self {
            Error::Timeout => Some(0u64),
            Error::NodeNotFound => Some(1u64),
            Error::NotSupported => Some(10u64),
            Error::TemporarilyUnavailable => Some(11u64),
            Error::MalformedRequest => Some(12u64),
            Error::Crash => Some(13u64),
            Error::Abort => Some(14u64),
            Error::KeyDoesNotExist => Some(20u64),
            Error::KeyAlreadyExist => Some(21u64),
            Error::PreconditionFailed => Some(22u64),
            Error::TxnConflict => Some(30u64),
            Error::CustomError(detail) => if detail.0 >= CUSTOM_CODE_FLOOR {
                Some(detail.0)
            } else {
                None
            },
        }
    }

    /// The code under which the error goes on the wire: its own, and that
    /// of `Crash`, the protocol's catch-all, for a custom error whose code
    /// lies below `CUSTOM_CODE_FLOOR`.
    pub open spec fn wire_code(self) -> u64 {
        match self.code() {
            Some(code) => code,
            None => 13u64,
        }
    }

    /// The text that goes with the error on the wire: a fixed phrase for a
    /// protocol kind, and its own text for a custom error.
    pub open spec fn text(self) -> Seq<char> {
        match self {
            Error::Timeout => "timeout"@,
            Error::NodeNotFound => "node not found"@,
            Error::NotSupported => "not supported"@,
            Error::TemporarilyUnavailable => "temporarily unavailable"@,
            Error::MalformedRequest => "malformed request"@,
            Error::Crash => "crash"@,
            Error::Abort => "abort"@,
            Error::KeyDoesNotExist => "key does not exist"@,
            Error::KeyAlreadyExist => "key already exists"@,
            Error::PreconditionFailed => "precondition failed"@,
            Error::TxnConflict => "transaction conflict"@,
            Error::CustomError(detail) => detail.1@,
        }
    }

    /// Retrieves the code of the error. A custom error whose code lies below
    /// `CUSTOM_CODE_FLOOR` has none.
    pub fn get_code(&self) -> (code: Option<u64>)
        ensures
            code == self.code(),
    {
        match self {
            Error::Timeout => Some(0),
            Error::NodeNotFound => Some(1),
            Error::NotSupported => Some(10),
            Error::TemporarilyUnavailable => Some(11),
            Error::MalformedRequest => Some(12),
            Error::Crash => Some(13),
            Error::Abort => Some(14),
            Error::KeyDoesNotExist => Some(20),
            Error::KeyAlreadyExist => Some(21),
            Error::PreconditionFailed => Some(22),
            Error::TxnConflict => Some(30),
            Error::CustomError(detail) => {
                if detail.0 >= CUSTOM_CODE_FLOOR {
                    Some(detail.0)
                } else {
                    None
                }
            },
        }
    }
}

/// A field of the wire format that decoding looks for.
#[derive(Debug, Clone, Copy, PartialEq, Eq, Structural)]
pub enum Field {
    /// `src`, in the envelope.
    Src,
    /// `dest`, in the envelope.
    Dest,
    /// `body`, in the envelope.
    Body,
    /// `type`, in the body.
    Type,
    /// `msg_id`, in the body.
    MsgId,
    /// `in_reply_to`, in the body.
    InReplyTo,
    /// `node_id`, in the body of an initialization message.
    NodeId,
    /// `node_ids`, in the body of an initialization message.
    NodeIds,
}

impl Field {
    /// The key under which the field stands on the wire.
    pub open spec fn key(self) -> Seq<char> {
        match self {
            Field::Src => "src"@,
            Field::Dest => "dest"@,
            Field::Body => "body"@,
            Field::Type => "type"@,
            Field::MsgId => "msg_id"@,
            Field::InReplyTo => "in_reply_to"@,
            Field::NodeId => "node_id"@,
            Field::NodeIds => "node_ids"@,
        }
    }

    /// The key under which the field stands on the wire.
    pub fn name(self) -> (name: &'static str)
        ensures
            name@ == self.key(),
    {
        match self {
            Field::Src => "src",
            Field::Dest => "dest",
            Field::Body => "body",
            Field::Type => "type",
            Field::MsgId => "msg_id",
            Field::InReplyTo => "in_reply_to",
            Field::NodeId => "node_id",
            Field::NodeIds => "node_ids",
        }
    }
}

/// Why a line could not be decoded. A line that fails to decode is never
/// answered: it is reported and dropped.
#[derive(Debug, Clone, Copy, PartialEq, Eq, Structural)]
pub enum DecodeError {
    /// The line is not the text of one JSON object.
    NotAnObject,
    /// A required field is absent.
    Missing(Field),
    /// A field is present and holds a value of the wrong type.
    Mistyped(Field),
}

impl Error {
    /// The code under which the error goes on the wire.
    pub fn get_wire_code(&self) -> (code: u64)
        ensures
            code == self.wire_code(),
    {
        match self.get_code() {
            Some(code) => code,
            None => 13,
        }
    }

    /// The text that goes with the error on the wire.
    pub fn get_text(&self) -> (text: String)
        ensures
            text@ == self.text(),
    {
        match self {
            Error::Timeout => "timeout".to_owned(),
            Error::NodeNotFound => "node not found".to_owned(),
            Error::NotSupported => "not supported".to_owned(),
            Error::TemporarilyUnavailable => "temporarily unavailable".to_owned(),
            Error::MalformedRequest => "malformed request".to_owned(),
            Error::Crash => "crash".to_owned(),
            Error::Abort => "abort".to_owned(),
            Error::KeyDoesNotExist => "key does not exist".to_owned(),
            Error::KeyAlreadyExist => "key already exists".to_owned(),
            Error::PreconditionFailed => "precondition failed".to_owned(),
            Error::TxnConflict => "transaction conflict".to_owned(),
            Error::CustomError(detail) => detail.1.clone(),
        }
    }

    /// Whether the error is fatal to the node once a handler has reported it.
    pub fn is_crash(&self) -> (crash: bool)
        ensures
            crash == (*self is Crash),
    {
        match self {
            Error::Crash => true,
            _ => false,
        }
    }
}

impl DecodeError {
    /// The description of the failure.
    pub open spec fn text(self) -> Seq<char> {
        match self {
            DecodeError::NotAnObject => "not a JSON object"@,
            DecodeError::Missing(field) => "missing field "@ + field.key(),
            DecodeError::Mistyped(field) => "bad type for "@ + field.key(),
        }
    }

    /// Describes the failure.
    pub fn get_text(&self) -> (text: String)
        ensures
            text@ == self.text(),
    {
        match self {
            DecodeError::NotAnObject => "not a JSON object".to_owned(),
            DecodeError::Missing(field) => "missing field ".to_owned().concat(field.name()),
            DecodeError::Mistyped(field) => "bad type for ".to_owned().concat(field.name()),
        }
    }
}

impl Clone for Error {
    fn clone(&self) -> (copy: Self)
        ensures
            copy == *self,
    {
        match self {
            Error::Timeout => Error::Timeout,
            Error::NodeNotFound => Error::NodeNotFound,
            Error::NotSupported => Error::NotSupported,
            Error::TemporarilyUnavailable => Error::TemporarilyUnavailable,
            Error::MalformedRequest => Error::MalformedRequest,
            Error::Crash => Error::Crash,
            Error::Abort => Error::Abort,
            Error::KeyDoesNotExist => Error::KeyDoesNotExist,
            Error::KeyAlreadyExist => Error::KeyAlreadyExist,
            Error::PreconditionFailed => Error::PreconditionFailed,
            Error::TxnConflict => Error::TxnConflict,
            Error::CustomError(detail) => Error::CustomError((detail.0, detail.1.clone())),
        }
    }
}

} // verus!
