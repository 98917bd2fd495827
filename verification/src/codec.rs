//! The codec: from a line to a request, and from a response to a line.

use vstd::prelude::*;
use vstd::utf8::encode_utf8;
use crate::error::{DecodeError, Field};
use crate::json::{
    object_insert, object_into_entries, object_new, object_view, parse_object, parsed_object,
    print_object, printed_object, value_from_object, value_from_string, value_from_u64,
    value_view, empty_object, Json, JsonNumber, Object,
};
use crate::message::{
    decoded_view, free_of_reserved, lemma_field_keys_differ, request_of, without_reserved,
    Request, RequestView, Response, ResponseView,
};

verus! {

/// The fields that the wire body holds for the response itself: `type`
/// always, `msg_id` and `in_reply_to` where the response has them.
pub open spec fn reserved_fields(response: ResponseView) -> Map<Seq<char>, Json> {
    let with_type = empty_object().insert(Field::Type.key(), Json::String(response.message_type));
    let with_id = match response.message_id {
        Some(id) => with_type.insert(Field::MsgId.key(), Json::Number(JsonNumber::Unsigned(id))),
        None => with_type,
    };
    match response.in_reply_to {
        Some(id) => with_id.insert(Field::InReplyTo.key(), Json::Number(JsonNumber::Unsigned(id))),
        None => with_id,
    }
}

/// The body of a response on the wire: its reserved fields, and over them
/// the fields of its own body.
pub open spec fn wire_body(response: ResponseView) -> Map<Seq<char>, Json> {
    reserved_fields(response).union_prefer_right(response.body)
}

/// The envelope of a response on the wire, sent by the node `node_id`.
pub open spec fn wire_envelope(node_id: Seq<char>, response: ResponseView) -> Map<
    Seq<char>,
    Json,
> {
    empty_object().insert(Field::Src.key(), Json::String(node_id)).insert(
        Field::Dest.key(),
        Json::String(response.destination),
    ).insert(Field::Body.key(), Json::Object(wire_body(response)))
}

/// The line of a response: the text of its envelope and a line feed.
pub open spec fn encode_spec(node_id: Seq<char>, response: ResponseView) -> Seq<char> {
    printed_object(wire_envelope(node_id, response)) + "\n"@
}

/// The lines of some responses, in order: one for each.
pub open spec fn encode_each(node_id: Seq<char>, responses: Seq<ResponseView>) -> Seq<Seq<char>> {
    responses.map_values(|response: ResponseView| encode_spec(node_id, response))
}

/// Every response has its line: as many lines as responses, each the line
/// of the response at its place.
pub proof fn lemma_one_line_for_each_response(node_id: Seq<char>, responses: Seq<ResponseView>)
    ensures
        encode_each(node_id, responses).len() == responses.len(),
        forall|k: int|
            0 <= k < responses.len() ==> #[trigger] encode_each(node_id, responses)[k]
                == encode_spec(node_id, responses[k]),
{
}

/// The request that the bytes of a line hold, or the reason why they hold
/// none.
pub open spec fn decode_spec(line: Seq<u8>) -> Result<RequestView, DecodeError> {
    match parsed_object(line) {
        None => Err(DecodeError::NotAnObject),
        Some(envelope) => request_of(envelope),
    }
}

/// The request as which a peer reads a response that the node `node_id`
/// sent.
pub open spec fn as_request(node_id: Seq<char>, response: ResponseView) -> RequestView {
    RequestView {
        source: node_id,
        destination: response.destination,
        message_type: response.message_type,
        message_id: response.message_id,
        in_reply_to: response.in_reply_to,
        body: response.body,
    }
}

/// On the wire the body of a response whose own body is free of the
/// reserved fields holds `type`, and holds `msg_id` and `in_reply_to` where
/// the response has them and nowhere else.
pub proof fn lemma_reserved_fields_on_wire(response: ResponseView)
    requires
        free_of_reserved(response.body),
    ensures
        wire_body(response)[Field::Type.key()] == Json::String(response.message_type),
        wire_body(response).contains_key(Field::Type.key()),
        wire_body(response).contains_key(Field::MsgId.key()) <==> response.message_id is Some,
        wire_body(response).contains_key(Field::InReplyTo.key()) <==> response.in_reply_to is Some,
        without_reserved(wire_body(response)) == response.body,
{
    lemma_field_keys_differ();
    assert(without_reserved(wire_body(response)) =~= response.body);
}

/// Round trip: the envelope of a response whose own body is free of the
/// reserved fields decodes to the request that holds what the response
/// holds, an absent identifier staying absent. So do the bytes of its line,
/// where the text that was printed parses as the object that was printed.
pub proof fn lemma_round_trip(node_id: Seq<char>, response: ResponseView)
    requires
        free_of_reserved(response.body),
    ensures
        request_of(wire_envelope(node_id, response)) matches Ok(request) && request == as_request(
            node_id,
            response,
        ),
        parsed_object(encode_utf8(encode_spec(node_id, response))) == Some(
            wire_envelope(node_id, response),
        ) ==> (decode_spec(encode_utf8(encode_spec(node_id, response))) matches Ok(request)
            && request == as_request(node_id, response)),
{
    lemma_field_keys_differ();
    lemma_reserved_fields_on_wire(response);
    let envelope = wire_envelope(node_id, response);
    assert(envelope[Field::Src.key()] == Json::String(node_id));
    assert(envelope[Field::Dest.key()] == Json::String(response.destination));
    assert(envelope[Field::Body.key()] == Json::Object(wire_body(response)));
}

/// Builds the body of a response as it goes on the wire.
pub fn create_response(response: &Response) -> (body: Object)
    ensures
        object_view(body) == wire_body(response@),
{
    let mut body = object_new();
    object_insert(
        &mut body,
        Field::Type.name().to_owned(),
        value_from_string(response.message_type.clone()),
    );
    if let Some(id) = response.message_id {
        object_insert(&mut body, Field::MsgId.name().to_owned(), value_from_u64(id));
    }
    if let Some(id) = response.in_reply_to {
        object_insert(&mut body, Field::InReplyTo.name().to_owned(), value_from_u64(id));
    }
    let mut entries = object_into_entries(response.body.clone());
    let ghost all = entries@;
    let ghost own = object_view(response.body);
    let ghost mut copied: Set<Seq<char>> = Set::empty();
    assert(own.restrict(copied) =~= empty_object());
    assert(object_view(body) =~= reserved_fields(response@).union_prefer_right(
        own.restrict(copied),
    ));
    while entries.len() > 0
        invariant
            entries.len() <= all.len(),
            entries@ == all.take(entries.len() as int),
            own == object_view(response.body),
            forall|i: int|
                #![trigger all[i]]
                0 <= i < all.len() ==> own.contains_key(all[i].0@) && own[all[i].0@]
                    == value_view(all[i].1),
            forall|i: int|
                #![trigger all[i]]
                entries.len() <= i < all.len() ==> copied.contains(all[i].0@),
            object_view(body) == reserved_fields(response@).union_prefer_right(
                own.restrict(copied),
            ),
        decreases entries.len(),
    {
        let ghost last = all[entries.len() - 1];
        let entry = entries.pop().unwrap();
        assert(entry == last);
        let (key, value) = entry;
        object_insert(&mut body, key, value);
        proof {
            let grown = copied.insert(last.0@);
            assert(object_view(body) =~= reserved_fields(response@).union_prefer_right(
                own.restrict(grown),
            ));
            copied = grown;
        }
    }
    assert(own.restrict(copied) =~= own) by {
        assert forall|key: Seq<char>| own.contains_key(key) implies copied.contains(key) by {
            let i = choose|i: int| #![trigger all[i]] 0 <= i < all.len() && all[i].0@ == key;
            assert(copied.contains(all[i].0@));
        }
    }
    body
}

/// Builds the envelope of a response as it goes on the wire, sent by the
/// node `node_id`.
pub fn envelope(node_id: &str, response: &Response) -> (wire: Object)
    ensures
        object_view(wire) == wire_envelope(node_id@, response@),
{
    let body = create_response(response);
    let mut wire = object_new();
    object_insert(&mut wire, Field::Src.name().to_owned(), value_from_string(node_id.to_owned()));
    object_insert(
        &mut wire,
        Field::Dest.name().to_owned(),
        value_from_string(response.destination.clone()),
    );
    object_insert(&mut wire, Field::Body.name().to_owned(), value_from_object(body));
    wire
}

/// Encodes a response as one line, sent by the node `node_id`.
pub fn encode(node_id: &str, response: &Response) -> (line: String)
    ensures
        line@ == encode_spec(node_id@, response@),
{
    let wire = envelope(node_id, response);
    print_object(&wire).unwrap().concat("\n")
}

/// Decodes the bytes of one line as a request.
pub fn decode(line: &[u8]) -> (decoded: Result<Request, DecodeError>)
    ensures
        decoded_view(decoded) == decode_spec(line@),
{
    match parse_object(line) {
        None => Err(DecodeError::NotAnObject),
        Some(envelope) => {
            let mut envelope = envelope;
            Request::try_from_json(&mut envelope)
        },
    }
}

} // verus!
