use fly_dist::broadcast::{BroadcastPayload, BroadcastState};
use fly_dist::echo::{EchoPayload, EchoState};
use fly_dist::ids::{IdsPayload, IdsState};
use fly_dist::{Body, Error, Message, Node, Output};

fn request<P>(payload: P, msg_id: Option<usize>) -> Message<P> {
    Message {
        src: "c1".to_string(),
        dest: "n1".to_string(),
        body: Body { type_: payload, msg_id, in_reply_to: None },
    }
}

#[test]
fn echo_answers_with_the_same_text() {
    let mut node = EchoState { id: 0 };
    let mut output = Output::new();
    let result = node.handle(request(EchoPayload::Echo { echo: "hello".to_string() }, Some(1)), &mut output);
    assert_eq!(result, Ok(()));
    assert_eq!(node, EchoState { id: 1 });
    assert_eq!(
        output.lines,
        vec!["{\"src\":\"n1\",\"dest\":\"c1\",\"body\":{\"type\":\"echo_ok\",\"echo\":\"hello\",\"msg_id\":0,\"in_reply_to\":1}}".to_string()]
    );
}

#[test]
fn echo_numbers_its_replies_upwards() {
    let mut node = EchoState { id: 0 };
    let mut output = Output::new();
    for text in ["a", "b", "c"] {
        node.handle(request(EchoPayload::Echo { echo: text.to_string() }, Some(10)), &mut output).unwrap();
    }
    let ids: Vec<Option<usize>> = output
        .lines
        .iter()
        .map(|line| Message::<EchoPayload>::decode(line).unwrap().body.msg_id)
        .collect();
    assert_eq!(ids, vec![Some(0), Some(1), Some(2)]);
}

#[test]
fn echo_passes_over_a_reply() {
    let mut node = EchoState { id: 4 };
    let mut output = Output::new();
    let result = node.handle(request(EchoPayload::EchoOk { echo: "hello".to_string() }, Some(1)), &mut output);
    assert_eq!(result, Ok(()));
    assert_eq!(node, EchoState { id: 5 });
    assert!(output.lines.is_empty());
}

#[test]
fn a_node_out_of_numbers_fails_and_does_nothing() {
    let mut echo = EchoState { id: usize::MAX };
    let mut output = Output::new();
    assert_eq!(
        echo.handle(request(EchoPayload::Echo { echo: "hello".to_string() }, Some(1)), &mut output),
        Err(Error::IdsExhausted)
    );
    assert_eq!(echo, EchoState { id: usize::MAX });
    let mut ids = IdsState { id: usize::MAX };
    assert_eq!(ids.handle(request(IdsPayload::Generate, Some(1)), &mut output), Err(Error::IdsExhausted));
    let mut broadcast = BroadcastState { id: usize::MAX, messages: vec![1] };
    assert_eq!(
        broadcast.handle(request(BroadcastPayload::Broadcast { message: 2 }, Some(1)), &mut output),
        Err(Error::IdsExhausted)
    );
    assert_eq!(broadcast, BroadcastState { id: usize::MAX, messages: vec![1] });
    assert!(output.lines.is_empty());
}

#[test]
fn a_node_out_of_numbers_still_passes_over_what_needs_no_answer() {
    let mut output = Output::new();
    let mut echo = EchoState { id: usize::MAX };
    assert_eq!(echo.handle(request(EchoPayload::EchoOk { echo: "x".to_string() }, Some(1)), &mut output), Ok(()));
    assert_eq!(echo, EchoState { id: usize::MAX });
    let mut ids = IdsState { id: usize::MAX };
    assert_eq!(ids.handle(request(IdsPayload::GenerateOk { id: "x".to_string() }, None), &mut output), Ok(()));
    assert_eq!(ids, IdsState { id: usize::MAX });
    let mut broadcast = BroadcastState { id: usize::MAX, messages: vec![3] };
    assert_eq!(broadcast.handle(request(BroadcastPayload::BroadcastOk, None), &mut output), Ok(()));
    assert_eq!(broadcast, BroadcastState { id: usize::MAX, messages: vec![3] });
    assert!(output.lines.is_empty());
}

#[test]
fn the_last_number_but_one_is_still_used() {
    let mut node = EchoState { id: usize::MAX - 1 };
    let mut output = Output::new();
    node.handle(request(EchoPayload::Echo { echo: "x".to_string() }, None), &mut output).unwrap();
    assert_eq!(node, EchoState { id: usize::MAX });
    let reply = Message::<EchoPayload>::decode(&output.lines[0]).unwrap();
    assert_eq!(reply.body.msg_id, Some(usize::MAX - 1));
}

#[test]
fn generate_hands_out_distinct_identifiers() {
    let mut node = IdsState { id: 0 };
    let mut output = Output::new();
    node.handle(request(IdsPayload::Generate, Some(1)), &mut output).unwrap();
    node.handle(request(IdsPayload::Generate, Some(2)), &mut output).unwrap();
    assert_eq!(output.lines.len(), 2);
    let first = Message::<IdsPayload>::decode(&output.lines[0]).unwrap();
    let second = Message::<IdsPayload>::decode(&output.lines[1]).unwrap();
    assert_eq!((first.body.msg_id, first.body.in_reply_to), (Some(0), Some(1)));
    assert_eq!((second.body.msg_id, second.body.in_reply_to), (Some(1), Some(2)));
    match (first.body.type_, second.body.type_) {
        (IdsPayload::GenerateOk { id: a }, IdsPayload::GenerateOk { id: b }) => {
            assert!(!a.is_empty());
            assert!(!b.is_empty());
            assert_ne!(a, b);
        }
        _ => panic!("expected two generate_ok replies"),
    }
}

#[test]
fn generate_passes_over_a_reply() {
    let mut node = IdsState { id: 0 };
    let mut output = Output::new();
    node.handle(request(IdsPayload::GenerateOk { id: "x".to_string() }, Some(1)), &mut output).unwrap();
    assert_eq!(node, IdsState { id: 1 });
    assert!(output.lines.is_empty());
}

#[test]
fn answer_puts_the_identifier_into_the_response() {
    let response = request(IdsPayload::Generate, Some(3)).into_response(8);
    let reply = IdsState::answer(response, "id-1".to_string());
    assert_eq!(
        reply,
        Message {
            src: "n1".to_string(),
            dest: "c1".to_string(),
            body: Body {
                type_: IdsPayload::GenerateOk { id: "id-1".to_string() },
                msg_id: Some(8),
                in_reply_to: Some(3),
            },
        }
    );
}

#[test]
fn read_gives_every_broadcast_in_order_and_as_often_as_it_came() {
    let mut node = BroadcastState { id: 0, messages: vec![] };
    let mut output = Output::new();
    for value in [5, 7, 5] {
        node.handle(request(BroadcastPayload::Broadcast { message: value }, Some(1)), &mut output).unwrap();
    }
    node.handle(request(BroadcastPayload::Read, Some(9)), &mut output).unwrap();
    assert_eq!(node, BroadcastState { id: 4, messages: vec![5, 7, 5] });
    assert_eq!(output.lines.len(), 4);
    assert_eq!(
        output.lines[0],
        "{\"src\":\"n1\",\"dest\":\"c1\",\"body\":{\"type\":\"broadcast_ok\",\"msg_id\":0,\"in_reply_to\":1}}"
    );
    assert_eq!(
        output.lines[3],
        "{\"src\":\"n1\",\"dest\":\"c1\",\"body\":{\"type\":\"read_ok\",\"messages\":[5,7,5],\"msg_id\":3,\"in_reply_to\":9}}"
    );
}

#[test]
fn read_on_a_fresh_node_gives_nothing() {
    let mut node = BroadcastState { id: 0, messages: vec![] };
    let mut output = Output::new();
    node.handle(request(BroadcastPayload::Read, None), &mut output).unwrap();
    assert_eq!(
        output.lines,
        vec!["{\"src\":\"n1\",\"dest\":\"c1\",\"body\":{\"type\":\"read_ok\",\"messages\":[],\"msg_id\":0,\"in_reply_to\":null}}".to_string()]
    );
}

#[test]
fn topology_is_acknowledged_and_not_recorded() {
    let mut node = BroadcastState { id: 2, messages: vec![1] };
    let mut output = Output::new();
    let topology = BroadcastPayload::Topology { topology: vec![("n1".to_string(), vec!["n2".to_string()])] };
    node.handle(request(topology, Some(5)), &mut output).unwrap();
    assert_eq!(node, BroadcastState { id: 3, messages: vec![1] });
    assert_eq!(
        output.lines,
        vec!["{\"src\":\"n1\",\"dest\":\"c1\",\"body\":{\"type\":\"topology_ok\",\"msg_id\":2,\"in_reply_to\":5}}".to_string()]
    );
}

#[test]
fn broadcast_passes_over_replies() {
    let mut node = BroadcastState { id: 0, messages: vec![] };
    let mut output = Output::new();
    node.handle(request(BroadcastPayload::BroadcastOk, Some(1)), &mut output).unwrap();
    node.handle(request(BroadcastPayload::ReadOk { messages: vec![1] }, Some(2)), &mut output).unwrap();
    node.handle(request(BroadcastPayload::TopologyOk, Some(3)), &mut output).unwrap();
    assert_eq!(node, BroadcastState { id: 3, messages: vec![] });
    assert!(output.lines.is_empty());
}
