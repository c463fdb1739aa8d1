use fly_dist::broadcast::BroadcastPayload;
use fly_dist::echo::EchoPayload;
use fly_dist::ids::IdsPayload;
use fly_dist::json::Json;
use fly_dist::{Body, Error, Init, Message};

fn message<P>(src: &str, dest: &str, payload: P, msg_id: Option<usize>, in_reply_to: Option<usize>) -> Message<P> {
    Message {
        src: src.to_string(),
        dest: dest.to_string(),
        body: Body { type_: payload, msg_id, in_reply_to },
    }
}

#[test]
fn decode_reads_an_echo_request() {
    let line = "{\"src\":\"c1\",\"dest\":\"n1\",\"body\":{\"type\":\"echo\",\"echo\":\"hello\",\"msg_id\":1}}";
    let decoded = Message::<EchoPayload>::decode(line).unwrap();
    assert_eq!(
        decoded,
        message("c1", "n1", EchoPayload::Echo { echo: "hello".to_string() }, Some(1), None)
    );
}

#[test]
fn encode_writes_the_fields_in_their_order() {
    let reply = message("n1", "c1", EchoPayload::EchoOk { echo: "hello".to_string() }, Some(0), Some(1));
    assert_eq!(
        reply.encode().unwrap(),
        "{\"src\":\"n1\",\"dest\":\"c1\",\"body\":{\"type\":\"echo_ok\",\"echo\":\"hello\",\"msg_id\":0,\"in_reply_to\":1}}"
    );
}

#[test]
fn encode_writes_null_for_a_missing_identifier() {
    let reply = message("a", "b", Init::InitOk, None, None);
    assert_eq!(
        reply.encode().unwrap(),
        "{\"src\":\"a\",\"dest\":\"b\",\"body\":{\"type\":\"init_ok\",\"msg_id\":null,\"in_reply_to\":null}}"
    );
}

#[test]
fn encode_escapes_what_json_must_escape() {
    let reply = message("n1", "c1", EchoPayload::EchoOk { echo: "a\"b\\c\nd".to_string() }, None, None);
    let line = reply.encode().unwrap();
    assert!(!line.contains('\n'));
    assert_eq!(Message::<EchoPayload>::decode(&line).unwrap(), reply);
}

#[test]
fn round_trip_of_every_init_payload() {
    let request = message(
        "c0",
        "n3",
        Init::Init { node_id: "n3".to_string(), node_ids: vec!["n1".to_string(), "n2".to_string(), "n3".to_string()] },
        Some(1),
        None,
    );
    assert_eq!(Message::<Init>::decode(&request.encode().unwrap()).unwrap(), request);
    let reply = message("n3", "c0", Init::InitOk, Some(1), Some(1));
    assert_eq!(Message::<Init>::decode(&reply.encode().unwrap()).unwrap(), reply);
}

#[test]
fn round_trip_of_every_echo_payload() {
    let request = message("c1", "n1", EchoPayload::Echo { echo: "hi".to_string() }, Some(7), None);
    assert_eq!(Message::<EchoPayload>::decode(&request.encode().unwrap()).unwrap(), request);
    let reply = message("n1", "c1", EchoPayload::EchoOk { echo: "".to_string() }, None, Some(7));
    assert_eq!(Message::<EchoPayload>::decode(&reply.encode().unwrap()).unwrap(), reply);
}

#[test]
fn round_trip_of_every_ids_payload() {
    let request = message("c1", "n1", IdsPayload::Generate, Some(2), None);
    assert_eq!(Message::<IdsPayload>::decode(&request.encode().unwrap()).unwrap(), request);
    let reply = message("n1", "c1", IdsPayload::GenerateOk { id: "abc-1".to_string() }, Some(0), Some(2));
    assert_eq!(Message::<IdsPayload>::decode(&reply.encode().unwrap()).unwrap(), reply);
}

#[test]
fn round_trip_of_every_broadcast_payload() {
    let payloads = vec![
        BroadcastPayload::Broadcast { message: 1000 },
        BroadcastPayload::BroadcastOk,
        BroadcastPayload::Read,
        BroadcastPayload::ReadOk { messages: vec![5, 7, 5] },
        BroadcastPayload::ReadOk { messages: vec![] },
        BroadcastPayload::Topology {
            topology: vec![
                ("n2".to_string(), vec!["n1".to_string(), "n3".to_string()]),
                ("n1".to_string(), vec![]),
            ],
        },
        BroadcastPayload::TopologyOk,
    ];
    for payload in payloads {
        let envelope = message("c9", "n1", payload, Some(usize::MAX), Some(0));
        let line = envelope.encode().unwrap();
        assert_eq!(Message::<BroadcastPayload>::decode(&line).unwrap(), envelope);
    }
}

#[test]
fn encode_of_a_broadcast_and_a_read_reply() {
    let broadcast = message("c1", "n1", BroadcastPayload::Broadcast { message: 5 }, Some(3), None);
    assert_eq!(
        broadcast.encode().unwrap(),
        "{\"src\":\"c1\",\"dest\":\"n1\",\"body\":{\"type\":\"broadcast\",\"message\":5,\"msg_id\":3,\"in_reply_to\":null}}"
    );
    let read_ok = message("n1", "c1", BroadcastPayload::ReadOk { messages: vec![5, 7, 5] }, Some(3), Some(9));
    assert_eq!(
        read_ok.encode().unwrap(),
        "{\"src\":\"n1\",\"dest\":\"c1\",\"body\":{\"type\":\"read_ok\",\"messages\":[5,7,5],\"msg_id\":3,\"in_reply_to\":9}}"
    );
}

#[test]
fn encode_of_a_topology() {
    let topology = message(
        "c1",
        "n1",
        BroadcastPayload::Topology { topology: vec![("n1".to_string(), vec!["n2".to_string()])] },
        None,
        None,
    );
    assert_eq!(
        topology.encode().unwrap(),
        "{\"src\":\"c1\",\"dest\":\"n1\",\"body\":{\"type\":\"topology\",\"topology\":{\"n1\":[\"n2\"]},\"msg_id\":null,\"in_reply_to\":null}}"
    );
}

#[test]
fn encode_refuses_a_topology_with_a_repeated_name() {
    let topology = message(
        "c1",
        "n1",
        BroadcastPayload::Topology {
            topology: vec![("n1".to_string(), vec![]), ("n1".to_string(), vec!["n2".to_string()])],
        },
        None,
        None,
    );
    assert_eq!(topology.encode(), Err(Error::Unencodable));
}

#[test]
fn decode_takes_null_and_absent_identifiers_as_none() {
    let line = "{\"src\":\"c1\",\"dest\":\"n1\",\"body\":{\"type\":\"read\",\"msg_id\":null}}";
    let decoded = Message::<BroadcastPayload>::decode(line).unwrap();
    assert_eq!(decoded, message("c1", "n1", BroadcastPayload::Read, None, None));
}

#[test]
fn decode_passes_over_members_it_does_not_know() {
    let line = "{\"id\":4,\"src\":\"c1\",\"dest\":\"n1\",\"body\":{\"extra\":[1.5,{\"a\":-2}],\"type\":\"echo\",\"echo\":\"x\",\"in_reply_to\":3}}";
    let decoded = Message::<EchoPayload>::decode(line).unwrap();
    assert_eq!(decoded, message("c1", "n1", EchoPayload::Echo { echo: "x".to_string() }, None, Some(3)));
}

#[test]
fn decode_refuses_what_is_not_json() {
    assert_eq!(Message::<EchoPayload>::decode("not json"), Err(Error::MalformedMessage));
    assert_eq!(Message::<EchoPayload>::decode(""), Err(Error::MalformedMessage));
    assert_eq!(
        Message::<EchoPayload>::decode("{\"src\":\"c1\",\"dest\":\"n1\",\"body\":{\"type\":\"echo\",\"echo\":\"x\"}"),
        Err(Error::MalformedMessage)
    );
}

#[test]
fn decode_refuses_a_missing_field() {
    let no_src = "{\"dest\":\"n1\",\"body\":{\"type\":\"echo\",\"echo\":\"x\"}}";
    let no_dest = "{\"src\":\"c1\",\"body\":{\"type\":\"echo\",\"echo\":\"x\"}}";
    let no_body = "{\"src\":\"c1\",\"dest\":\"n1\"}";
    let no_type = "{\"src\":\"c1\",\"dest\":\"n1\",\"body\":{\"echo\":\"x\"}}";
    let no_echo = "{\"src\":\"c1\",\"dest\":\"n1\",\"body\":{\"type\":\"echo\"}}";
    for line in [no_src, no_dest, no_body, no_type, no_echo] {
        assert_eq!(Message::<EchoPayload>::decode(line), Err(Error::MalformedMessage));
    }
}

#[test]
fn decode_refuses_a_field_of_another_type() {
    let src_number = "{\"src\":1,\"dest\":\"n1\",\"body\":{\"type\":\"echo\",\"echo\":\"x\"}}";
    let body_array = "{\"src\":\"c1\",\"dest\":\"n1\",\"body\":[]}";
    let echo_number = "{\"src\":\"c1\",\"dest\":\"n1\",\"body\":{\"type\":\"echo\",\"echo\":5}}";
    let id_text = "{\"src\":\"c1\",\"dest\":\"n1\",\"body\":{\"type\":\"echo\",\"echo\":\"x\",\"msg_id\":\"1\"}}";
    let id_negative = "{\"src\":\"c1\",\"dest\":\"n1\",\"body\":{\"type\":\"echo\",\"echo\":\"x\",\"msg_id\":-1}}";
    let id_fraction = "{\"src\":\"c1\",\"dest\":\"n1\",\"body\":{\"type\":\"echo\",\"echo\":\"x\",\"in_reply_to\":1.0}}";
    let not_an_object = "[\"c1\",\"n1\",{\"type\":\"echo\",\"echo\":\"x\"}]";
    for line in [src_number, body_array, echo_number, id_text, id_negative, id_fraction, not_an_object] {
        assert_eq!(Message::<EchoPayload>::decode(line), Err(Error::MalformedMessage));
    }
}

#[test]
fn decode_refuses_an_unknown_tag() {
    let line = "{\"src\":\"c1\",\"dest\":\"n1\",\"body\":{\"type\":\"generate\",\"msg_id\":1}}";
    assert_eq!(Message::<EchoPayload>::decode(line), Err(Error::MalformedMessage));
    assert!(Message::<IdsPayload>::decode(line).is_ok());
}

#[test]
fn decode_refuses_broadcast_fields_of_another_type() {
    let message_text = "{\"src\":\"c1\",\"dest\":\"n1\",\"body\":{\"type\":\"broadcast\",\"message\":\"5\"}}";
    let messages_mixed = "{\"src\":\"c1\",\"dest\":\"n1\",\"body\":{\"type\":\"read_ok\",\"messages\":[1,\"2\"]}}";
    let topology_list = "{\"src\":\"c1\",\"dest\":\"n1\",\"body\":{\"type\":\"topology\",\"topology\":[\"n1\"]}}";
    let topology_row = "{\"src\":\"c1\",\"dest\":\"n1\",\"body\":{\"type\":\"topology\",\"topology\":{\"n1\":[1]}}}";
    for line in [message_text, messages_mixed, topology_list, topology_row] {
        assert_eq!(Message::<BroadcastPayload>::decode(line), Err(Error::MalformedMessage));
    }
}

#[test]
fn to_json_and_from_json_agree() {
    let envelope = message("c1", "n1", EchoPayload::Echo { echo: "hello".to_string() }, Some(1), None);
    let json = envelope.to_json();
    match &json {
        Json::Object(members) => {
            assert_eq!(members.len(), 3);
            assert_eq!(members[0].0, "src");
            assert_eq!(members[1].0, "dest");
            assert_eq!(members[2].0, "body");
        }
        _ => panic!("expected an object"),
    }
    assert_eq!(Message::<EchoPayload>::from_json(&json).unwrap(), envelope);
}

#[test]
fn into_response_swaps_the_ends_and_correlates() {
    let request = message("c1", "n1", EchoPayload::Echo { echo: "hello".to_string() }, Some(41), Some(2));
    let response = request.into_response(7);
    assert_eq!(response, message("n1", "c1", EchoPayload::Echo { echo: "hello".to_string() }, Some(7), Some(41)));
}

#[test]
fn error_messages_are_sentences() {
    assert_eq!(Error::MalformedMessage.message(), "malformed message");
    assert_eq!(Error::HandshakeMissing.message(), "input ended before the init message");
    assert_eq!(Error::HandshakeProtocolViolation.message(), "first message is not an init message");
    assert_eq!(Error::Unencodable.message(), "message has no text form");
    assert_eq!(Error::IdsExhausted.message(), "message identifiers exhausted");
}
