//! Requests and responses, and how a request is read out of a JSON envelope.

use vstd::prelude::*;
use crate::error::{DecodeError, Field};
use crate::json::{
    object_remove, object_view, value_as_str, value_as_u64, value_into_object, Json, JsonNumber,
    Object,
};

verus! {

/// An inbound message.
#[derive(Debug)]
pub struct Request {
    /// The node that sent the message.
    pub source: String,
    /// The node that the message is addressed to.
    pub destination: String,
    /// The type of the message, by which it is dispatched.
    pub message_type: String,
    /// The sender's identifier of the message, if it gave one.
    pub message_id: Option<u64>,
    /// The identifier of the message that this one answers, if it answers one.
    pub in_reply_to: Option<u64>,
    /// The fields of the body other than `type`, `msg_id` and `in_reply_to`.
    pub body: Object,
}

/// What a `Request` holds.
pub struct RequestView {
    pub source: Seq<char>,
    pub destination: Seq<char>,
    pub message_type: Seq<char>,
    pub message_id: Option<u64>,
    pub in_reply_to: Option<u64>,
    pub body: Map<Seq<char>, Json>,
}

impl View for Request {
    type V = RequestView;

    open spec fn view(&self) -> RequestView {
        RequestView {
            source: self.source@,
            destination: self.destination@,
            message_type: self.message_type@,
            message_id: self.message_id,
            in_reply_to: self.in_reply_to,
            body: object_view(self.body),
        }
    }
}

impl Clone for Request {
    fn clone(&self) -> (copy: Self)
        ensures
            copy@ == self@,
    {
        Request {
            source: self.source.clone(),
            destination: self.destination.clone(),
            message_type: self.message_type.clone(),
            message_id: self.message_id,
            in_reply_to: self.in_reply_to,
            body: self.body.clone(),
        }
    }
}

/// An outbound message.
#[derive(Debug)]
pub struct Response {
    /// The node that the message is addressed to.
    pub destination: String,
    /// The type of the message.
    pub message_type: String,
    /// This node's identifier of the message, if it has one.
    pub message_id: Option<u64>,
    /// The identifier of the request that this message answers. A message
    /// without one is a push.
    pub in_reply_to: Option<u64>,
    /// The fields of the body other than `type`, `msg_id` and `in_reply_to`.
    pub body: Object,
}

/// What a `Response` holds.
pub struct ResponseView {
    pub destination: Seq<char>,
    pub message_type: Seq<char>,
    pub message_id: Option<u64>,
    pub in_reply_to: Option<u64>,
    pub body: Map<Seq<char>, Json>,
}

impl View for Response {
    type V = ResponseView;

    open spec fn view(&self) -> ResponseView {
        ResponseView {
            destination: self.destination@,
            message_type: self.message_type@,
            message_id: self.message_id,
            in_reply_to: self.in_reply_to,
            body: object_view(self.body),
        }
    }
}

impl Clone for Response {
    fn clone(&self) -> (copy: Self)
        ensures
            copy@ == self@,
    {
        Response {
            destination: self.destination.clone(),
            message_type: self.message_type.clone(),
            message_id: self.message_id,
            in_reply_to: self.in_reply_to,
            body: self.body.clone(),
        }
    }
}

/// The identifier that follows `id`, where `id` is one and has a successor
/// among the identifiers.
pub open spec fn next_id(id: Option<u64>) -> Option<u64> {
    match id {
        Some(n) => if n < u64::MAX {
            Some((n + 1) as u64)
        } else {
            None
        },
        None => None,
    }
}

/// The reply to a request with the given body: it goes to the request's
/// source, its type is the request's with `_ok` behind it, it answers the
/// request's identifier and carries the identifier that follows it.
pub open spec fn reply_to(request: RequestView, body: Map<Seq<char>, Json>) -> ResponseView {
    ResponseView {
        destination: request.source,
        message_type: request.message_type + "_ok"@,
        message_id: next_id(request.message_id),
        in_reply_to: request.message_id,
        body,
    }
}

/// The identifier that follows `id`.
pub fn successor(id: Option<u64>) -> (next: Option<u64>)
    ensures
        next == next_id(id),
{
    match id {
        Some(n) => if n < u64::MAX {
            Some(n + 1)
        } else {
            None
        },
        None => None,
    }
}

impl Response {
    /// Creates the reply to a request, with the given body.
    pub fn new_from_request(request: &Request, body: Object) -> (reply: Response)
        ensures
            reply@ == reply_to(request@, object_view(body)),
    {
        Response {
            destination: request.source.clone(),
            message_type: request.message_type.clone().concat("_ok"),
            message_id: successor(request.message_id),
            in_reply_to: request.message_id,
            body,
        }
    }
}

/// The text under a required string field of an object.
pub open spec fn text_field(object: Map<Seq<char>, Json>, field: Field) -> Result<
    Seq<char>,
    DecodeError,
> {
    if !object.contains_key(field.key()) {
        Err(DecodeError::Missing(field))
    } else {
        match object[field.key()] {
            Json::String(text) => Ok(text),
            _ => Err(DecodeError::Mistyped(field)),
        }
    }
}

/// The object under a required object field of an object.
pub open spec fn object_field(object: Map<Seq<char>, Json>, field: Field) -> Result<
    Map<Seq<char>, Json>,
    DecodeError,
> {
    if !object.contains_key(field.key()) {
        Err(DecodeError::Missing(field))
    } else {
        match object[field.key()] {
            Json::Object(inner) => Ok(inner),
            _ => Err(DecodeError::Mistyped(field)),
        }
    }
}

/// The identifier under an optional field of an object: absent, or a whole
/// number from 0 to `u64::MAX`.
pub open spec fn id_field(object: Map<Seq<char>, Json>, field: Field) -> Result<
    Option<u64>,
    DecodeError,
> {
    if !object.contains_key(field.key()) {
        Ok(None)
    } else {
        match object[field.key()] {
            Json::Number(JsonNumber::Unsigned(id)) => Ok(Some(id)),
            _ => Err(DecodeError::Mistyped(field)),
        }
    }
}

/// A body without the three fields that a request holds apart from it.
pub open spec fn without_reserved(body: Map<Seq<char>, Json>) -> Map<Seq<char>, Json> {
    body.remove(Field::Type.key()).remove(Field::MsgId.key()).remove(Field::InReplyTo.key())
}

/// Whether a body holds none of the fields that a message holds apart from
/// its body.
pub open spec fn free_of_reserved(body: Map<Seq<char>, Json>) -> bool {
    &&& !body.contains_key(Field::Type.key())
    &&& !body.contains_key(Field::MsgId.key())
    &&& !body.contains_key(Field::InReplyTo.key())
}

/// The request that an envelope holds, or the first reason why it holds
/// none. The fields are looked at in this order: `src`, `dest`, `body`, and
/// in the body `type`, `msg_id`, `in_reply_to`.
pub open spec fn request_of(envelope: Map<Seq<char>, Json>) -> Result<RequestView, DecodeError> {
    match text_field(envelope, Field::Src) {
        Err(e) => Err(e),
        Ok(source) => match text_field(envelope, Field::Dest) {
            Err(e) => Err(e),
            Ok(destination) => match object_field(envelope, Field::Body) {
                Err(e) => Err(e),
                Ok(body) => match text_field(body, Field::Type) {
                    Err(e) => Err(e),
                    Ok(message_type) => match id_field(body, Field::MsgId) {
                        Err(e) => Err(e),
                        Ok(message_id) => match id_field(body, Field::InReplyTo) {
                            Err(e) => Err(e),
                            Ok(in_reply_to) => Ok(
                                RequestView {
                                    source,
                                    destination,
                                    message_type,
                                    message_id,
                                    in_reply_to,
                                    body: without_reserved(body),
                                },
                            ),
                        },
                    },
                },
            },
        },
    }
}

/// A decoded request, or the reason why there is none, with the request as
/// what it holds.
pub open spec fn decoded_view(decoded: Result<Request, DecodeError>) -> Result<
    RequestView,
    DecodeError,
> {
    match decoded {
        Ok(request) => Ok(request@),
        Err(e) => Err(e),
    }
}

/// What is left of an envelope once a request was looked for in it: each
/// field that was looked at is taken out, up to the first of `src`, `dest`
/// and `body` that is absent or of the wrong type.
pub open spec fn envelope_rest(envelope: Map<Seq<char>, Json>) -> Map<Seq<char>, Json> {
    let without_src = envelope.remove(Field::Src.key());
    if text_field(envelope, Field::Src) is Err {
        without_src
    } else if text_field(envelope, Field::Dest) is Err {
        without_src.remove(Field::Dest.key())
    } else {
        without_src.remove(Field::Dest.key()).remove(Field::Body.key())
    }
}

/// Takes a required string field out of an object.
fn take_text(object: &mut Object, field: Field) -> (taken: Result<String, DecodeError>)
    ensures
        object_view(*final(object)) == object_view(*old(object)).remove(field.key()),
        match taken {
            Ok(text) => text_field(object_view(*old(object)), field) matches Ok(t) && t == text@,
            Err(e) => text_field(object_view(*old(object)), field) matches Err(f) && f == e,
        },
{
    match object_remove(object, field.name()) {
        None => Err(DecodeError::Missing(field)),
        Some(value) => match value_as_str(&value) {
            Some(text) => Ok(text.to_owned()),
            None => Err(DecodeError::Mistyped(field)),
        },
    }
}

/// Takes a required object field out of an object.
fn take_object(object: &mut Object, field: Field) -> (taken: Result<Object, DecodeError>)
    ensures
        object_view(*final(object)) == object_view(*old(object)).remove(field.key()),
        match taken {
            Ok(inner) => object_field(object_view(*old(object)), field) matches Ok(o) && o
                == object_view(inner),
            Err(e) => object_field(object_view(*old(object)), field) matches Err(f) && f == e,
        },
{
    match object_remove(object, field.name()) {
        None => Err(DecodeError::Missing(field)),
        Some(value) => match value_into_object(value) {
            Some(inner) => Ok(inner),
            None => Err(DecodeError::Mistyped(field)),
        },
    }
}

/// Takes an optional identifier out of an object.
fn take_id(object: &mut Object, field: Field) -> (taken: Result<Option<u64>, DecodeError>)
    ensures
        object_view(*final(object)) == object_view(*old(object)).remove(field.key()),
        taken == id_field(object_view(*old(object)), field),
{
    match object_remove(object, field.name()) {
        None => Ok(None),
        Some(value) => match value_as_u64(&value) {
            Some(id) => Ok(Some(id)),
            None => Err(DecodeError::Mistyped(field)),
        },
    }
}

impl Request {
    /// Reads a request out of an envelope, taking out of it the fields that
    /// it looks at. Nothing is decided about a field beyond the first that
    /// is absent or of the wrong type.
    pub fn try_from_json(json: &mut Object) -> (decoded: Result<Request, DecodeError>)
        ensures
            decoded_view(decoded) == request_of(object_view(*old(json))),
            object_view(*final(json)) == envelope_rest(object_view(*old(json))),
    {
        proof {
            lemma_field_keys_differ();
        }
        let source = match take_text(json, Field::Src) {
            Ok(text) => text,
            Err(e) => { return Err(e); },
        };
        let destination = match take_text(json, Field::Dest) {
            Ok(text) => text,
            Err(e) => { return Err(e); },
        };
        let mut body = match take_object(json, Field::Body) {
            Ok(inner) => inner,
            Err(e) => { return Err(e); },
        };
        let message_type = match take_text(&mut body, Field::Type) {
            Ok(text) => text,
            Err(e) => { return Err(e); },
        };
        let message_id = match take_id(&mut body, Field::MsgId) {
            Ok(id) => id,
            Err(e) => { return Err(e); },
        };
        let in_reply_to = match take_id(&mut body, Field::InReplyTo) {
            Ok(id) => id,
            Err(e) => { return Err(e); },
        };
        Ok(Request { source, destination, message_type, message_id, in_reply_to, body })
    }
}

/// The body of a request that was read out of an envelope holds none of the
/// reserved fields, and holds every other field of the envelope's body as
/// it stood there.
pub proof fn lemma_decoded_body(envelope: Map<Seq<char>, Json>)
    requires
        request_of(envelope) is Ok,
    ensures
        free_of_reserved(request_of(envelope)->Ok_0.body),
        object_field(envelope, Field::Body) matches Ok(body) && forall|key: Seq<char>|
            key != Field::Type.key() && key != Field::MsgId.key() && key != Field::InReplyTo.key()
                ==> (#[trigger] request_of(envelope)->Ok_0.body.contains_key(key)
                <==> body.contains_key(key)) && (body.contains_key(key) ==> request_of(
                envelope,
            )->Ok_0.body[key] == body[key]),
{
}

/// No two fields stand under the same key.
pub proof fn lemma_field_keys_differ()
    ensures
        forall|a: Field, b: Field| a != b ==> #[trigger] a.key() != #[trigger] b.key(),
{
    reveal_strlit("src");
    reveal_strlit("dest");
    reveal_strlit("body");
    reveal_strlit("type");
    reveal_strlit("msg_id");
    reveal_strlit("in_reply_to");
    reveal_strlit("node_id");
    reveal_strlit("node_ids");
    assert forall|a: Field, b: Field| a != b implies #[trigger] a.key() != #[trigger] b.key() by {
        if a.key() == b.key() {
            assert(a.key().len() == b.key().len());
            assert(a.key()[0] == b.key()[0]);
            assert(a.key()[1] == b.key()[1]);
        }
    }
}

} // verus!
