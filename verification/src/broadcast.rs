//! The broadcast application on one node: it records the numbers that are
//! broadcast to it and reads them back. The topology that it is told is
//! acknowledged and not used.

use crate::envelope::{lemma_encodable, line_of};
use crate::error::Error;
use crate::json::{
    distinct_keys, find, lemma_lookup_absent, lookup, members_view, Json, JsonView,
};
use crate::message::{response_to, Body, Message, MessageView};
use crate::node::{advance, next_number, Node};
use crate::output::Output;
use crate::payload::{lemma_lookup_own, Codec, Payload};
use crate::text::same_text;
use crate::wire::{
    as_number, as_numbers, as_table, as_text, distinct_rows, lemma_numbers_read_back,
    lemma_table_read_back, lemma_table_renderable, lemma_written_renderable, number_json,
    numbers_json, read_number, read_numbers, read_table, read_text, table_json, table_view,
    text_json, write_number, write_numbers, write_table,
};
use vstd::prelude::*;

verus! {

/// The payloads of the broadcast application.
#[derive(Debug, PartialEq, Eq)]
pub enum BroadcastPayload {
    /// A number to record.
    Broadcast { message: usize },
    BroadcastOk,
    /// The request for all numbers recorded so far.
    Read,
    ReadOk { messages: Vec<usize> },
    /// For each node, the nodes next to it, in the order of the wire.
    Topology { topology: Vec<(String, Vec<String>)> },
    TopologyOk,
}

/// The mathematical value of a [`BroadcastPayload`].
pub enum BroadcastView {
    Broadcast { message: usize },
    BroadcastOk,
    Read,
    ReadOk { messages: Seq<usize> },
    Topology { topology: Seq<(Seq<char>, Seq<Seq<char>>)> },
    TopologyOk,
}

impl View for BroadcastPayload {
    type V = BroadcastView;

    open spec fn view(&self) -> BroadcastView {
        match self {
            BroadcastPayload::Broadcast { message } => BroadcastView::Broadcast {
                message: *message,
            },
            BroadcastPayload::BroadcastOk => BroadcastView::BroadcastOk,
            BroadcastPayload::Read => BroadcastView::Read,
            BroadcastPayload::ReadOk { messages } => BroadcastView::ReadOk { messages: messages@ },
            BroadcastPayload::Topology { topology } => BroadcastView::Topology {
                topology: table_view(topology@),
            },
            BroadcastPayload::TopologyOk => BroadcastView::TopologyOk,
        }
    }
}

/// The tags of the broadcast application differ from one another.
pub proof fn lemma_broadcast_tags()
    ensures
        "broadcast"@ != "broadcast_ok"@,
        "broadcast"@ != "read"@,
        "broadcast"@ != "read_ok"@,
        "broadcast"@ != "topology"@,
        "broadcast"@ != "topology_ok"@,
        "broadcast_ok"@ != "read"@,
        "broadcast_ok"@ != "read_ok"@,
        "broadcast_ok"@ != "topology"@,
        "broadcast_ok"@ != "topology_ok"@,
        "read"@ != "read_ok"@,
        "read"@ != "topology"@,
        "read"@ != "topology_ok"@,
        "read_ok"@ != "topology"@,
        "read_ok"@ != "topology_ok"@,
        "topology"@ != "topology_ok"@,
{
    reveal_strlit("broadcast");
    reveal_strlit("broadcast_ok");
    reveal_strlit("read");
    reveal_strlit("read_ok");
    reveal_strlit("topology");
    reveal_strlit("topology_ok");
    assert("broadcast"@.len() == 9);
    assert("broadcast_ok"@.len() == 12);
    assert("read"@.len() == 4);
    assert("read_ok"@.len() == 7);
    assert("topology"@.len() == 8);
    assert("topology_ok"@.len() == 11);
}

/// The keys of the broadcast application differ from one another, and from
/// the keys of the identifiers.
pub proof fn lemma_broadcast_keys()
    ensures
        "type"@ != "message"@,
        "type"@ != "messages"@,
        "type"@ != "topology"@,
        "type"@ != "msg_id"@ && "type"@ != "in_reply_to"@,
        "message"@ != "msg_id"@ && "message"@ != "in_reply_to"@,
        "messages"@ != "msg_id"@ && "messages"@ != "in_reply_to"@,
        "topology"@ != "msg_id"@ && "topology"@ != "in_reply_to"@,
{
    reveal_strlit("type");
    reveal_strlit("message");
    reveal_strlit("messages");
    reveal_strlit("topology");
    reveal_strlit("msg_id");
    reveal_strlit("in_reply_to");
    assert("type"@.len() == 4);
    assert("message"@.len() == 7);
    assert("messages"@.len() == 8);
    assert("topology"@.len() == 8);
    assert("msg_id"@.len() == 6);
    assert("in_reply_to"@.len() == 11);
}

impl Codec for BroadcastPayload {
    /// A topology needs a name for each row that no other row has.
    open spec fn valid(payload: BroadcastView) -> bool {
        payload matches BroadcastView::Topology { topology } ==> distinct_rows(topology)
    }

    open spec fn encoded(payload: BroadcastView) -> Seq<(Seq<char>, JsonView)> {
        match payload {
            BroadcastView::Broadcast { message } => seq![
                ("type"@, text_json("broadcast"@)),
                ("message"@, number_json(message)),
            ],
            BroadcastView::BroadcastOk => seq![("type"@, text_json("broadcast_ok"@))],
            BroadcastView::Read => seq![("type"@, text_json("read"@))],
            BroadcastView::ReadOk { messages } => seq![
                ("type"@, text_json("read_ok"@)),
                ("messages"@, numbers_json(messages)),
            ],
            BroadcastView::Topology { topology } => seq![
                ("type"@, text_json("topology"@)),
                ("topology"@, table_json(topology)),
            ],
            BroadcastView::TopologyOk => seq![("type"@, text_json("topology_ok"@))],
        }
    }

    open spec fn decoded(members: Seq<(Seq<char>, JsonView)>) -> Option<BroadcastView> {
        match as_text(lookup(members, "type"@)) {
            Some(tag) => if tag == "broadcast"@ {
                match as_number(lookup(members, "message"@)) {
                    Some(message) => Some(BroadcastView::Broadcast { message }),
                    None => None,
                }
            } else if tag == "broadcast_ok"@ {
                Some(BroadcastView::BroadcastOk)
            } else if tag == "read"@ {
                Some(BroadcastView::Read)
            } else if tag == "read_ok"@ {
                match as_numbers(lookup(members, "messages"@)) {
                    Some(messages) => Some(BroadcastView::ReadOk { messages }),
                    None => None,
                }
            } else if tag == "topology"@ {
                match as_table(lookup(members, "topology"@)) {
                    Some(topology) => Some(BroadcastView::Topology { topology }),
                    None => None,
                }
            } else if tag == "topology_ok"@ {
                Some(BroadcastView::TopologyOk)
            } else {
                None
            },
            None => None,
        }
    }

    proof fn lemma_codec(payload: BroadcastView, rest: Seq<(Seq<char>, JsonView)>) {
        lemma_broadcast_tags();
        lemma_broadcast_keys();
        let own = Self::encoded(payload);
        assert(own[0].0 == "type"@);
        assert(own.len() == 2 ==> own[1].0 == "message"@ || own[1].0 == "messages"@ || own[1].0
            == "topology"@);
        assert(distinct_keys(own));
        lemma_lookup_absent(own, "msg_id"@);
        lemma_lookup_absent(own, "in_reply_to"@);
        lemma_lookup_own(own, rest, 0);
        let tag = as_text(Some(own[0].1))->0;
        match payload {
            BroadcastView::Broadcast { message } => {
                lemma_lookup_own(own, rest, 1);
                lemma_written_renderable(tag, message, None, Seq::empty(), Seq::empty());
            },
            BroadcastView::ReadOk { messages } => {
                lemma_lookup_own(own, rest, 1);
                lemma_numbers_read_back(messages);
                lemma_written_renderable(tag, 0, None, Seq::empty(), messages);
            },
            BroadcastView::Topology { topology } => {
                lemma_lookup_own(own, rest, 1);
                lemma_table_read_back(topology);
                lemma_table_renderable(topology);
                lemma_written_renderable(tag, 0, None, Seq::empty(), Seq::empty());
                assert(own[1].1 == table_json(topology));
            },
            _ => {
                lemma_written_renderable(tag, 0, None, Seq::empty(), Seq::empty());
            },
        }
    }

    fn encode(&self) -> (members: Vec<(String, Json)>) {
        let mut members: Vec<(String, Json)> = Vec::new();
        match self {
            BroadcastPayload::Broadcast { message } => {
                members.push(("type".to_owned(), Json::Str("broadcast".to_owned())));
                members.push(("message".to_owned(), write_number(*message)));
            },
            BroadcastPayload::BroadcastOk => {
                members.push(("type".to_owned(), Json::Str("broadcast_ok".to_owned())));
            },
            BroadcastPayload::Read => {
                members.push(("type".to_owned(), Json::Str("read".to_owned())));
            },
            BroadcastPayload::ReadOk { messages } => {
                members.push(("type".to_owned(), Json::Str("read_ok".to_owned())));
                members.push(("messages".to_owned(), write_numbers(messages)));
            },
            BroadcastPayload::Topology { topology } => {
                members.push(("type".to_owned(), Json::Str("topology".to_owned())));
                members.push(("topology".to_owned(), write_table(topology)));
            },
            BroadcastPayload::TopologyOk => {
                members.push(("type".to_owned(), Json::Str("topology_ok".to_owned())));
            },
        }
        assert(members_view(members@) =~= Self::encoded(self@));
        members
    }

    fn decode(members: &Vec<(String, Json)>) -> (payload: Option<BroadcastPayload>) {
        let tag = match read_text(find(members, "type")) {
            Some(tag) => tag,
            None => {
                return None;
            },
        };
        if same_text(tag.as_str(), "broadcast") {
            match read_number(find(members, "message")) {
                Some(message) => Some(BroadcastPayload::Broadcast { message }),
                None => None,
            }
        } else if same_text(tag.as_str(), "broadcast_ok") {
            Some(BroadcastPayload::BroadcastOk)
        } else if same_text(tag.as_str(), "read") {
            Some(BroadcastPayload::Read)
        } else if same_text(tag.as_str(), "read_ok") {
            match read_numbers(find(members, "messages")) {
                Some(messages) => Some(BroadcastPayload::ReadOk { messages }),
                None => None,
            }
        } else if same_text(tag.as_str(), "topology") {
            match read_table(find(members, "topology")) {
                Some(topology) => Some(BroadcastPayload::Topology { topology }),
                None => None,
            }
        } else if same_text(tag.as_str(), "topology_ok") {
            Some(BroadcastPayload::TopologyOk)
        } else {
            None
        }
    }
}

impl Payload for BroadcastPayload {}

/// The broadcast node: the number of its next message, and the numbers
/// recorded so far, oldest first, each as often as it was broadcast.
#[derive(Debug, PartialEq, Eq)]
pub struct BroadcastState {
    pub id: usize,
    pub messages: Vec<usize>,
}

/// The payload of the reply to a request, for a node that has recorded
/// `messages`; `None` for what is no request.
pub open spec fn broadcast_answer(request: BroadcastView, messages: Seq<usize>) -> Option<
    BroadcastView,
> {
    match request {
        BroadcastView::Topology { .. } => Some(BroadcastView::TopologyOk),
        BroadcastView::Broadcast { .. } => Some(BroadcastView::BroadcastOk),
        BroadcastView::Read => Some(BroadcastView::ReadOk { messages }),
        _ => None,
    }
}

/// What a node has recorded after a message: one number more after a
/// broadcast, the same otherwise.
pub open spec fn recorded(request: BroadcastView, messages: Seq<usize>) -> Seq<usize> {
    match request {
        BroadcastView::Broadcast { message } => messages.push(message),
        _ => messages,
    }
}

impl Node<BroadcastPayload> for BroadcastState {
    /// Every message takes one number, as long as there is one. A broadcast
    /// is recorded and acknowledged, a topology is acknowledged, and a read
    /// is answered with all that was recorded before it, in the order and as
    /// often as it came; a node that has no number left for the answer fails
    /// and does nothing. A reply is passed over in silence.
    open spec fn handled(
        self,
        message: MessageView<BroadcastView>,
        output: Seq<Seq<char>>,
        after: BroadcastState,
        written: Seq<Seq<char>>,
        result: Result<(), Error>,
    ) -> bool {
        match broadcast_answer(message.body.payload, self.messages@) {
            Some(answer) => if self.id == usize::MAX {
                after == self && written == output && result == Err::<(), Error>(
                    Error::IdsExhausted,
                )
            } else {
                &&& after.id == self.id + 1
                &&& after.messages@ == recorded(message.body.payload, self.messages@)
                &&& written == output.push(
                    line_of::<BroadcastPayload>(
                        response_to(message, self.id).with_payload(answer),
                    ),
                )
                &&& result == Ok::<(), Error>(())
            },
            None => {
                &&& after.id == next_number(self.id)
                &&& after.messages@ == self.messages@
                &&& written == output
                &&& result == Ok::<(), Error>(())
            },
        }
    }

    fn handle(&mut self, message: Message<BroadcastPayload>, output: &mut Output) -> (result:
        Result<(), Error>) {
        let Message { src, dest, body } = message.into_response(self.id);
        let answer = match body.type_ {
            BroadcastPayload::Topology { .. } => Some(BroadcastPayload::TopologyOk),
            BroadcastPayload::Broadcast { message } => {
                if self.id < usize::MAX {
                    self.messages.push(message);
                }
                Some(BroadcastPayload::BroadcastOk)
            },
            BroadcastPayload::Read => {
                let messages = self.messages.clone();
                assert(messages@ =~= self.messages@);
                Some(BroadcastPayload::ReadOk { messages })
            },
            _ => None,
        };
        match answer {
            Some(payload) => {
                if self.id == usize::MAX {
                    return Err(Error::IdsExhausted);
                }
                let reply = Message {
                    src,
                    dest,
                    body: Body {
                        type_: payload,
                        msg_id: body.msg_id,
                        in_reply_to: body.in_reply_to,
                    },
                };
                proof {
                    lemma_encodable::<BroadcastPayload>(reply@);
                }
                match output.send(&reply) {
                    Ok(()) => {},
                    Err(e) => {
                        return Err(e);
                    },
                }
            },
            None => {},
        }
        self.id = advance(self.id);
        Ok(())
    }
}

/// A message that is no request gets no reply, records nothing and does not
/// stop the node.
pub proof fn lemma_broadcast_passes_over(
    node: BroadcastState,
    message: MessageView<BroadcastView>,
    output: Seq<Seq<char>>,
    after: BroadcastState,
    written: Seq<Seq<char>>,
    result: Result<(), Error>,
)
    requires
        node.handled(message, output, after, written, result),
        broadcast_answer(message.body.payload, node.messages@) is None,
    ensures
        written == output,
        after.messages@ == node.messages@,
        result == Ok::<(), Error>(()),
{
}

/// What a read is answered with is all that was broadcast before it, oldest
/// first, each number as often as it came: the answer to a read that follows
/// a broadcast ends with that broadcast's number.
pub proof fn lemma_read_after_broadcast(
    node: BroadcastState,
    broadcast: MessageView<BroadcastView>,
    output: Seq<Seq<char>>,
    after: BroadcastState,
    written: Seq<Seq<char>>,
    result: Result<(), Error>,
)
    requires
        node.handled(broadcast, output, after, written, result),
        broadcast.body.payload is Broadcast,
        result is Ok,
    ensures
        broadcast_answer(BroadcastView::Read, after.messages@) == Some(
            BroadcastView::ReadOk {
                messages: node.messages@.push(broadcast.body.payload->message),
            },
        ),
{
}

} // verus!
