use maelstrom_rs::codec::{create_response, decode, encode, envelope};
use maelstrom_rs::error::{DecodeError, Field};
use maelstrom_rs::message::{successor, Request, Response};
use serde_json::Value;

fn object(text: &str) -> serde_json::Map<String, Value> {
    match serde_json::from_str::<Value>(text) {
        Ok(Value::Object(map)) => map,
        _ => panic!("not an object: {}", text),
    }
}

fn value(text: &str) -> Value {
    serde_json::from_str::<Value>(text).unwrap()
}

fn decode_error(line: &str) -> DecodeError {
    match decode(line.as_bytes()) {
        Ok(request) => panic!("decoded {:?}", request),
        Err(e) => e,
    }
}

#[test]
fn decodes_a_full_envelope() {
    let request = decode(
        r#"{"src":"c1","dest":"n1","body":{"type":"echo","msg_id":1,"in_reply_to":7,"echo":"hi","n":[1,2.5,null]}}"#.as_bytes(),
    )
    .unwrap();
    assert_eq!(request.source, "c1");
    assert_eq!(request.destination, "n1");
    assert_eq!(request.message_type, "echo");
    assert_eq!(request.message_id, Some(1));
    assert_eq!(request.in_reply_to, Some(7));
    assert_eq!(request.body, object(r#"{"echo":"hi","n":[1,2.5,null]}"#));
}

#[test]
fn decodes_without_optional_fields() {
    let request = decode("{\"src\":\"n2\",\"dest\":\"n1\",\"body\":{\"type\":\"gossip\"}}\n".as_bytes()).unwrap();
    assert_eq!(request.source, "n2");
    assert_eq!(request.destination, "n1");
    assert_eq!(request.message_type, "gossip");
    assert_eq!(request.message_id, None);
    assert_eq!(request.in_reply_to, None);
    assert!(request.body.is_empty());
}

#[test]
fn reserved_fields_leave_the_body() {
    let request = decode(
        r#"{"src":"a","dest":"b","body":{"type":"t","msg_id":3,"in_reply_to":4,"keep":true}}"#.as_bytes(),
    )
    .unwrap();
    assert!(!request.body.contains_key("type"));
    assert!(!request.body.contains_key("msg_id"));
    assert!(!request.body.contains_key("in_reply_to"));
    assert_eq!(request.body.get("keep"), Some(&Value::Bool(true)));
    assert_eq!(request.body.len(), 1);
}

#[test]
fn largest_identifier_decodes() {
    let request = decode(
        r#"{"src":"a","dest":"b","body":{"type":"t","msg_id":18446744073709551615,"in_reply_to":0}}"#.as_bytes(),
    )
    .unwrap();
    assert_eq!(request.message_id, Some(u64::MAX));
    assert_eq!(request.in_reply_to, Some(0));
}

#[test]
fn text_that_is_no_object_is_refused() {
    assert_eq!(decode_error("not json"), DecodeError::NotAnObject);
    assert_eq!(decode_error(""), DecodeError::NotAnObject);
    assert_eq!(decode_error("\n"), DecodeError::NotAnObject);
    assert_eq!(decode_error("[1,2]"), DecodeError::NotAnObject);
    assert_eq!(decode_error("\"src\""), DecodeError::NotAnObject);
    assert_eq!(decode_error("null"), DecodeError::NotAnObject);
    assert_eq!(decode_error("{\"src\":\"a\""), DecodeError::NotAnObject);
    assert_eq!(decode_error("{} {}"), DecodeError::NotAnObject);
}

#[test]
fn missing_fields_are_named_in_order() {
    assert_eq!(decode_error("{}"), DecodeError::Missing(Field::Src));
    assert_eq!(decode_error(r#"{"dest":"b","body":{"type":"t"}}"#), DecodeError::Missing(Field::Src));
    assert_eq!(decode_error(r#"{"src":"a"}"#), DecodeError::Missing(Field::Dest));
    assert_eq!(decode_error(r#"{"src":"a","dest":"b"}"#), DecodeError::Missing(Field::Body));
    assert_eq!(decode_error(r#"{"src":"a","dest":"b","body":{}}"#), DecodeError::Missing(Field::Type));
    assert_eq!(
        decode_error(r#"{"src":"a","dest":"b","body":{"msg_id":1}}"#),
        DecodeError::Missing(Field::Type)
    );
}

#[test]
fn mistyped_fields_are_named_in_order() {
    assert_eq!(decode_error(r#"{"src":1,"dest":2,"body":3}"#), DecodeError::Mistyped(Field::Src));
    assert_eq!(decode_error(r#"{"src":null}"#), DecodeError::Mistyped(Field::Src));
    assert_eq!(decode_error(r#"{"src":"a","dest":["b"],"body":3}"#), DecodeError::Mistyped(Field::Dest));
    assert_eq!(decode_error(r#"{"src":"a","dest":"b","body":"x"}"#), DecodeError::Mistyped(Field::Body));
    assert_eq!(decode_error(r#"{"src":"a","dest":"b","body":[]}"#), DecodeError::Mistyped(Field::Body));
    assert_eq!(
        decode_error(r#"{"src":"a","dest":"b","body":{"type":5,"msg_id":"x"}}"#),
        DecodeError::Mistyped(Field::Type)
    );
    assert_eq!(
        decode_error(r#"{"src":"a","dest":"b","body":{"type":"t","msg_id":"1","in_reply_to":"2"}}"#),
        DecodeError::Mistyped(Field::MsgId)
    );
    assert_eq!(
        decode_error(r#"{"src":"a","dest":"b","body":{"type":"t","msg_id":1,"in_reply_to":"2"}}"#),
        DecodeError::Mistyped(Field::InReplyTo)
    );
}

#[test]
fn identifiers_must_be_whole_and_not_negative() {
    assert_eq!(
        decode_error(r#"{"src":"a","dest":"b","body":{"type":"t","msg_id":-1}}"#),
        DecodeError::Mistyped(Field::MsgId)
    );
    assert_eq!(
        decode_error(r#"{"src":"a","dest":"b","body":{"type":"t","msg_id":1.5}}"#),
        DecodeError::Mistyped(Field::MsgId)
    );
    assert_eq!(
        decode_error(r#"{"src":"a","dest":"b","body":{"type":"t","msg_id":null}}"#),
        DecodeError::Mistyped(Field::MsgId)
    );
    assert_eq!(
        decode_error(r#"{"src":"a","dest":"b","body":{"type":"t","in_reply_to":-7}}"#),
        DecodeError::Mistyped(Field::InReplyTo)
    );
    assert_eq!(
        decode_error(r#"{"src":"a","dest":"b","body":{"type":"t","in_reply_to":18446744073709551616}}"#),
        DecodeError::Mistyped(Field::InReplyTo)
    );
}

#[test]
fn try_from_json_takes_what_it_reads() {
    let mut json = object(r#"{"src":"a","dest":"b","body":{"type":"t","x":1},"extra":true}"#);
    let request = Request::try_from_json(&mut json).unwrap();
    assert_eq!(request.source, "a");
    assert_eq!(request.body, object(r#"{"x":1}"#));
    assert_eq!(json, object(r#"{"extra":true}"#));
}

#[test]
fn try_from_json_stops_at_the_first_bad_field() {
    let mut json = object(r#"{"src":5,"dest":"b","body":{"type":"t"}}"#);
    assert_eq!(Request::try_from_json(&mut json).unwrap_err(), DecodeError::Mistyped(Field::Src));
    assert_eq!(json, object(r#"{"dest":"b","body":{"type":"t"}}"#));

    let mut json = object(r#"{"src":"a","body":{"type":"t"}}"#);
    assert_eq!(Request::try_from_json(&mut json).unwrap_err(), DecodeError::Missing(Field::Dest));
    assert_eq!(json, object(r#"{"body":{"type":"t"}}"#));

    let mut json = object(r#"{"src":"a","dest":"b","body":{"msg_id":1},"z":0}"#);
    assert_eq!(Request::try_from_json(&mut json).unwrap_err(), DecodeError::Missing(Field::Type));
    assert_eq!(json, object(r#"{"z":0}"#));
}

fn request(message_type: &str, message_id: Option<u64>) -> Request {
    Request {
        source: String::from("c1"),
        destination: String::from("n1"),
        message_type: String::from(message_type),
        message_id,
        in_reply_to: None,
        body: Default::default(),
    }
}

#[test]
fn reply_is_built_from_the_request() {
    let reply = Response::new_from_request(&request("echo", Some(1)), object(r#"{"echo":"hi"}"#));
    assert_eq!(reply.destination, "c1");
    assert_eq!(reply.message_type, "echo_ok");
    assert_eq!(reply.message_id, Some(2));
    assert_eq!(reply.in_reply_to, Some(1));
    assert_eq!(reply.body, object(r#"{"echo":"hi"}"#));
}

#[test]
fn reply_to_a_request_without_identifier_has_none() {
    let reply = Response::new_from_request(&request("topology", None), serde_json::Map::new());
    assert_eq!(reply.message_type, "topology_ok");
    assert_eq!(reply.message_id, None);
    assert_eq!(reply.in_reply_to, None);
    assert!(reply.body.is_empty());
}

#[test]
fn reply_to_the_last_identifier_carries_none_of_its_own() {
    let reply = Response::new_from_request(&request("read", Some(u64::MAX)), serde_json::Map::new());
    assert_eq!(reply.in_reply_to, Some(u64::MAX));
    assert_eq!(reply.message_id, None);
    let reply = Response::new_from_request(&request("read", Some(u64::MAX - 1)), serde_json::Map::new());
    assert_eq!(reply.message_id, Some(u64::MAX));
}

#[test]
fn successor_of_an_identifier() {
    assert_eq!(successor(None), None);
    assert_eq!(successor(Some(0)), Some(1));
    assert_eq!(successor(Some(41)), Some(42));
    assert_eq!(successor(Some(u64::MAX)), None);
}

fn response(message_id: Option<u64>, in_reply_to: Option<u64>, body: &str) -> Response {
    Response {
        destination: String::from("c1"),
        message_type: String::from("echo_ok"),
        message_id,
        in_reply_to,
        body: object(body),
    }
}

#[test]
fn encodes_one_compact_line() {
    let line = encode("n1", &response(Some(2), Some(1), r#"{"echo":"hi"}"#));
    assert_eq!(
        line,
        "{\"body\":{\"echo\":\"hi\",\"in_reply_to\":1,\"msg_id\":2,\"type\":\"echo_ok\"},\"dest\":\"c1\",\"src\":\"n1\"}\n"
    );
}

#[test]
fn optional_fields_go_on_the_wire_only_when_set() {
    let body = create_response(&response(None, None, r#"{"message":42}"#));
    assert_eq!(body, object(r#"{"type":"echo_ok","message":42}"#));
    let body = create_response(&response(Some(9), None, "{}"));
    assert_eq!(body, object(r#"{"type":"echo_ok","msg_id":9}"#));
    let body = create_response(&response(None, Some(8), "{}"));
    assert_eq!(body, object(r#"{"type":"echo_ok","in_reply_to":8}"#));
    let body = create_response(&response(Some(u64::MAX), Some(0), "{}"));
    assert_eq!(body, object(r#"{"type":"echo_ok","msg_id":18446744073709551615,"in_reply_to":0}"#));
}

#[test]
fn body_fields_are_merged_over_the_reserved_ones() {
    let body = create_response(&response(Some(2), Some(1), r#"{"type":"mine","msg_id":"x","a":[1,{"b":null}]}"#));
    assert_eq!(body, object(r#"{"type":"mine","msg_id":"x","in_reply_to":1,"a":[1,{"b":null}]}"#));
}

#[test]
fn envelope_names_sender_and_receiver() {
    let wire = envelope("n7", &response(None, Some(3), r#"{"k":"v"}"#));
    assert_eq!(
        Value::Object(wire),
        value(r#"{"src":"n7","dest":"c1","body":{"type":"echo_ok","in_reply_to":3,"k":"v"}}"#)
    );
}

#[test]
fn encoding_leaves_the_response_as_it_was() {
    let given = response(Some(2), Some(1), r#"{"echo":"hi"}"#);
    let _ = encode("n1", &given);
    assert_eq!(given.body, object(r#"{"echo":"hi"}"#));
    assert_eq!(given.message_id, Some(2));
}

#[test]
fn what_is_encoded_decodes_to_the_same() {
    let cases = vec![
        response(Some(2), Some(1), r#"{"echo":"hi"}"#),
        response(None, None, r#"{"message":42,"deep":{"list":[true,false,null,"s",-3]}}"#),
        response(Some(0), None, "{}"),
        response(None, Some(u64::MAX), r#"{"text":"line\nbreak \"quoted\" é"}"#),
    ];
    for given in cases {
        let line = encode("n1", &given);
        assert!(line.ends_with('\n'));
        assert_eq!(line.matches('\n').count(), 1);
        let read = decode(line.as_bytes()).unwrap();
        assert_eq!(read.source, "n1");
        assert_eq!(read.destination, given.destination);
        assert_eq!(read.message_type, given.message_type);
        assert_eq!(read.message_id, given.message_id);
        assert_eq!(read.in_reply_to, given.in_reply_to);
        assert_eq!(read.body, given.body);
    }
}

#[test]
fn clones_hold_the_same() {
    let given = response(Some(2), Some(1), r#"{"echo":"hi"}"#);
    let copy = given.clone();
    assert_eq!(copy.destination, given.destination);
    assert_eq!(copy.message_type, given.message_type);
    assert_eq!(copy.message_id, given.message_id);
    assert_eq!(copy.in_reply_to, given.in_reply_to);
    assert_eq!(copy.body, given.body);
    let asked = decode(r#"{"src":"c1","dest":"n1","body":{"type":"echo","msg_id":1,"echo":"hi"}}"#.as_bytes()).unwrap();
    let again = asked.clone();
    assert_eq!(again.source, asked.source);
    assert_eq!(again.destination, asked.destination);
    assert_eq!(again.message_type, asked.message_type);
    assert_eq!(again.message_id, asked.message_id);
    assert_eq!(again.in_reply_to, asked.in_reply_to);
    assert_eq!(again.body, asked.body);
}

#[test]
fn bytes_that_are_no_text_are_refused() {
    assert_eq!(decode(&[0xff, 0xfe, b'{', b'}']).unwrap_err(), DecodeError::NotAnObject);
    assert_eq!(decode(b"{\"src\":\"\xff\"}").unwrap_err(), DecodeError::NotAnObject);
    assert_eq!(decode(&[]).unwrap_err(), DecodeError::NotAnObject);
}

#[test]
fn deeply_nested_text_is_refused() {
    let mut text = String::from("{\"src\":");
    for _ in 0..100_000 {
        text.push('[');
    }
    assert_eq!(decode(text.as_bytes()).unwrap_err(), DecodeError::NotAnObject);
    let mut text = String::from("{\"src\":\"a\",\"dest\":\"b\",\"body\":{\"type\":\"t\",\"deep\":");
    for _ in 0..300 {
        text.push('[');
    }
    for _ in 0..300 {
        text.push(']');
    }
    text.push_str("}}");
    assert_eq!(decode(text.as_bytes()).unwrap_err(), DecodeError::NotAnObject);
}

#[test]
fn of_a_key_that_comes_twice_the_last_counts() {
    let request = decode(br#"{"src":"a","src":"z","dest":"b","body":{"type":"t","k":1,"k":2}}"#).unwrap();
    assert_eq!(request.source, "z");
    assert_eq!(request.body, object(r#"{"k":2}"#));
}

#[test]
fn line_does_not_depend_on_the_order_of_insertion() {
    let mut forward = serde_json::Map::new();
    forward.insert(String::from("a"), Value::from(1u64));
    forward.insert(String::from("m"), Value::from(String::from("x")));
    forward.insert(String::from("z"), Value::Null);
    let mut backward = serde_json::Map::new();
    backward.insert(String::from("z"), Value::Null);
    backward.insert(String::from("m"), Value::from(String::from("x")));
    backward.insert(String::from("a"), Value::from(1u64));
    let mut first = response(Some(2), Some(1), "{}");
    first.body = forward;
    let mut second = response(Some(2), Some(1), "{}");
    second.body = backward;
    assert_eq!(encode("n1", &first), encode("n1", &second));
    assert_eq!(
        encode("n1", &first),
        "{\"body\":{\"a\":1,\"in_reply_to\":1,\"m\":\"x\",\"msg_id\":2,\"type\":\"echo_ok\",\"z\":null},\"dest\":\"c1\",\"src\":\"n1\"}\n"
    );
}

#[test]
fn every_response_has_a_line() {
    let cases = vec![
        response(None, None, "{}"),
        response(Some(u64::MAX), Some(u64::MAX), r#"{"f":1.5e300,"g":-0.0,"h":-9223372036854775808,"i":[[[[]]]],"j":{"":{}}}"#),
        response(Some(1), None, r#"{"type":null,"msg_id":[],"in_reply_to":{}}"#),
    ];
    for given in cases {
        let line = encode("", &given);
        assert!(line.ends_with("}\n"));
        assert!(line.starts_with('{'));
        assert_eq!(line.matches('\n').count(), 1);
        assert!(serde_json::from_str::<Value>(&line).is_ok());
    }
}
