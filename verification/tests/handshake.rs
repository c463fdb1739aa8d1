use fly_dist::echo::EchoPayload;
use fly_dist::init::handshake;
use fly_dist::{Error, NodeIdentity, Output, Payload};

const INIT: &str = "{\"src\":\"c0\",\"dest\":\"n1\",\"body\":{\"type\":\"init\",\"node_id\":\"n1\",\"node_ids\":[\"n1\",\"n2\",\"n3\"],\"msg_id\":1}}";

#[test]
fn handshake_acknowledges_and_gives_the_identity() {
    let mut output = Output::new();
    let identity = handshake(Some(INIT), &mut output).unwrap();
    assert_eq!(
        identity,
        NodeIdentity {
            node_id: "n1".to_string(),
            node_ids: vec!["n1".to_string(), "n2".to_string(), "n3".to_string()],
        }
    );
    assert_eq!(
        output.lines,
        vec!["{\"src\":\"n1\",\"dest\":\"c0\",\"body\":{\"type\":\"init_ok\",\"msg_id\":1,\"in_reply_to\":1}}".to_string()]
    );
}

#[test]
fn handshake_without_a_number_answers_without_one() {
    let mut output = Output::new();
    let line = "{\"src\":\"c0\",\"dest\":\"n1\",\"body\":{\"type\":\"init\",\"node_id\":\"n1\",\"node_ids\":[]}}";
    let identity = handshake(Some(line), &mut output).unwrap();
    assert_eq!(identity, NodeIdentity { node_id: "n1".to_string(), node_ids: vec![] });
    assert_eq!(
        output.lines,
        vec!["{\"src\":\"n1\",\"dest\":\"c0\",\"body\":{\"type\":\"init_ok\",\"msg_id\":null,\"in_reply_to\":null}}".to_string()]
    );
}

#[test]
fn handshake_appends_to_what_was_written() {
    let mut output = Output { lines: vec!["earlier".to_string()] };
    handshake(Some(INIT), &mut output).unwrap();
    assert_eq!(output.lines.len(), 2);
    assert_eq!(output.lines[0], "earlier");
}

#[test]
fn handshake_on_a_closed_input_is_missing() {
    let mut output = Output::new();
    assert_eq!(handshake(None, &mut output), Err(Error::HandshakeMissing));
    assert!(output.lines.is_empty());
}

#[test]
fn handshake_on_what_is_no_envelope_is_malformed() {
    for line in ["", "hello", "{}", "{\"src\":\"c0\",\"dest\":\"n1\"}", "{\"src\":\"c0\",\"dest\":\"n1\",\"body\":{}}"] {
        let mut output = Output::new();
        assert_eq!(handshake(Some(line), &mut output), Err(Error::MalformedMessage));
        assert!(output.lines.is_empty());
    }
}

#[test]
fn handshake_on_another_message_is_a_protocol_violation() {
    let echo = "{\"src\":\"c1\",\"dest\":\"n1\",\"body\":{\"type\":\"echo\",\"echo\":\"hello\",\"msg_id\":1}}";
    let init_ok = "{\"src\":\"c1\",\"dest\":\"n1\",\"body\":{\"type\":\"init_ok\",\"in_reply_to\":1}}";
    for line in [echo, init_ok] {
        let mut output = Output::new();
        assert_eq!(handshake(Some(line), &mut output), Err(Error::HandshakeProtocolViolation));
        assert!(output.lines.is_empty());
    }
}

#[test]
fn handshake_on_an_init_without_its_fields_is_malformed() {
    let no_ids = "{\"src\":\"c0\",\"dest\":\"n1\",\"body\":{\"type\":\"init\",\"node_id\":\"n1\"}}";
    let no_id = "{\"src\":\"c0\",\"dest\":\"n1\",\"body\":{\"type\":\"init\",\"node_ids\":[\"n1\"]}}";
    let ids_numbers = "{\"src\":\"c0\",\"dest\":\"n1\",\"body\":{\"type\":\"init\",\"node_id\":\"n1\",\"node_ids\":[1]}}";
    for line in [no_ids, no_id, ids_numbers] {
        let mut output = Output::new();
        assert_eq!(handshake(Some(line), &mut output), Err(Error::MalformedMessage));
        assert!(output.lines.is_empty());
    }
}

#[test]
fn handle_init_of_a_payload_is_the_handshake() {
    let mut by_payload = Output::new();
    let mut direct = Output::new();
    let first = EchoPayload::handle_init(Some(INIT), &mut by_payload);
    let second = handshake(Some(INIT), &mut direct);
    assert_eq!(first, second);
    assert_eq!(by_payload, direct);
    assert_eq!(EchoPayload::handle_init(None, &mut by_payload), Err(Error::HandshakeMissing));
}

#[test]
fn take_hands_out_the_lines_and_empties_the_output() {
    let mut output = Output::new();
    handshake(Some(INIT), &mut output).unwrap();
    let lines = output.take();
    assert_eq!(lines.len(), 1);
    assert!(output.lines.is_empty());
}
