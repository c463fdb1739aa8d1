//! The echo application: what is said to the node, it says back.

use crate::envelope::{lemma_encodable, line_of};
use crate::error::Error;
use crate::json::{
    distinct_keys, find, lemma_lookup_absent, lookup, members_view, Json, JsonView,
};
use crate::message::{response_to, Body, Message, MessageView};
use crate::node::{advance, next_number, Node};
use crate::output::Output;
use crate::payload::{lemma_lookup_own, Codec, Payload};
use crate::text::same_text;
use crate::wire::{as_text, lemma_written_renderable, read_text, text_json, write_text};
use vstd::prelude::*;

verus! {

/// The payloads of the echo application.
#[derive(Debug, PartialEq, Eq)]
pub enum EchoPayload {
    /// The request, with the text to say back.
    Echo { echo: String },
    /// The reply, with the same text.
    EchoOk { echo: String },
}

/// The mathematical value of an [`EchoPayload`].
pub enum EchoView {
    Echo { echo: Seq<char> },
    EchoOk { echo: Seq<char> },
}

impl View for EchoPayload {
    type V = EchoView;

    open spec fn view(&self) -> EchoView {
        match self {
            EchoPayload::Echo { echo } => EchoView::Echo { echo: echo@ },
            EchoPayload::EchoOk { echo } => EchoView::EchoOk { echo: echo@ },
        }
    }
}

/// The keys and tags of the echo application differ from one another, and
/// from the keys of the identifiers.
pub proof fn lemma_echo_keys()
    ensures
        "echo"@ != "echo_ok"@,
        "type"@ != "echo"@,
        "type"@ != "msg_id"@ && "type"@ != "in_reply_to"@,
        "echo"@ != "msg_id"@ && "echo"@ != "in_reply_to"@,
{
    reveal_strlit("echo");
    reveal_strlit("echo_ok");
    reveal_strlit("type");
    reveal_strlit("msg_id");
    reveal_strlit("in_reply_to");
    assert("echo"@.len() != "echo_ok"@.len());
    assert("type"@[0] != "echo"@[0]);
    assert("type"@.len() != "msg_id"@.len());
    assert("type"@.len() != "in_reply_to"@.len());
    assert("echo"@.len() != "msg_id"@.len());
    assert("echo"@.len() != "in_reply_to"@.len());
}

impl Codec for EchoPayload {
    open spec fn valid(payload: EchoView) -> bool {
        true
    }

    open spec fn encoded(payload: EchoView) -> Seq<(Seq<char>, JsonView)> {
        match payload {
            EchoView::Echo { echo } => seq![
                ("type"@, text_json("echo"@)),
                ("echo"@, text_json(echo)),
            ],
            EchoView::EchoOk { echo } => seq![
                ("type"@, text_json("echo_ok"@)),
                ("echo"@, text_json(echo)),
            ],
        }
    }

    open spec fn decoded(members: Seq<(Seq<char>, JsonView)>) -> Option<EchoView> {
        match (as_text(lookup(members, "type"@)), as_text(lookup(members, "echo"@))) {
            (Some(tag), Some(echo)) => if tag == "echo"@ {
                Some(EchoView::Echo { echo })
            } else if tag == "echo_ok"@ {
                Some(EchoView::EchoOk { echo })
            } else {
                None
            },
            _ => None,
        }
    }

    proof fn lemma_codec(payload: EchoView, rest: Seq<(Seq<char>, JsonView)>) {
        lemma_echo_keys();
        let own = Self::encoded(payload);
        assert(own[0].0 == "type"@ && own[1].0 == "echo"@);
        assert(distinct_keys(own));
        lemma_lookup_absent(own, "msg_id"@);
        lemma_lookup_absent(own, "in_reply_to"@);
        lemma_lookup_own(own, rest, 0);
        lemma_lookup_own(own, rest, 1);
        let echo = match payload {
            EchoView::Echo { echo } => echo,
            EchoView::EchoOk { echo } => echo,
        };
        lemma_written_renderable(echo, 0, None, Seq::empty(), Seq::empty());
        lemma_written_renderable("echo"@, 0, None, Seq::empty(), Seq::empty());
        lemma_written_renderable("echo_ok"@, 0, None, Seq::empty(), Seq::empty());
    }

    fn encode(&self) -> (members: Vec<(String, Json)>) {
        let mut members: Vec<(String, Json)> = Vec::new();
        match self {
            EchoPayload::Echo { echo } => {
                members.push(("type".to_owned(), Json::Str("echo".to_owned())));
                members.push(("echo".to_owned(), write_text(echo)));
            },
            EchoPayload::EchoOk { echo } => {
                members.push(("type".to_owned(), Json::Str("echo_ok".to_owned())));
                members.push(("echo".to_owned(), write_text(echo)));
            },
        }
        assert(members_view(members@) =~= Self::encoded(self@));
        members
    }

    fn decode(members: &Vec<(String, Json)>) -> (payload: Option<EchoPayload>) {
        let tag = match read_text(find(members, "type")) {
            Some(tag) => tag,
            None => {
                return None;
            },
        };
        let echo = match read_text(find(members, "echo")) {
            Some(echo) => echo,
            None => {
                return None;
            },
        };
        if same_text(tag.as_str(), "echo") {
            Some(EchoPayload::Echo { echo })
        } else if same_text(tag.as_str(), "echo_ok") {
            Some(EchoPayload::EchoOk { echo })
        } else {
            None
        }
    }
}

impl Payload for EchoPayload {}

/// The echo node: nothing but the number of its next message.
#[derive(Debug, PartialEq, Eq)]
pub struct EchoState {
    pub id: usize,
}

/// The reply to an echo request: the answer to it, with the same text.
pub open spec fn echo_reply(
    request: MessageView<EchoView>,
    id: usize,
    echo: Seq<char>,
) -> MessageView<EchoView> {
    response_to(request, id).with_payload(EchoView::EchoOk { echo })
}

impl Node<EchoPayload> for EchoState {
    /// Every message takes one number, as long as there is one. A request is
    /// answered with its own text; a node that has no number left for the
    /// answer fails and does nothing. A reply is passed over in silence.
    open spec fn handled(
        self,
        message: MessageView<EchoView>,
        output: Seq<Seq<char>>,
        after: EchoState,
        written: Seq<Seq<char>>,
        result: Result<(), Error>,
    ) -> bool {
        match message.body.payload {
            EchoView::Echo { echo } => if self.id == usize::MAX {
                after == self && written == output && result == Err::<(), Error>(
                    Error::IdsExhausted,
                )
            } else {
                &&& after.id == self.id + 1
                &&& written == output.push(
                    line_of::<EchoPayload>(echo_reply(message, self.id, echo)),
                )
                &&& result == Ok::<(), Error>(())
            },
            EchoView::EchoOk { .. } => {
                &&& after.id == next_number(self.id)
                &&& written == output
                &&& result == Ok::<(), Error>(())
            },
        }
    }

    fn handle(&mut self, message: Message<EchoPayload>, output: &mut Output) -> (result: Result<
        (),
        Error,
    >) {
        let Message { src, dest, body } = message.into_response(self.id);
        match body.type_ {
            EchoPayload::Echo { echo } => {
                if self.id == usize::MAX {
                    return Err(Error::IdsExhausted);
                }
                let reply = Message {
                    src,
                    dest,
                    body: Body {
                        type_: EchoPayload::EchoOk { echo },
                        msg_id: body.msg_id,
                        in_reply_to: body.in_reply_to,
                    },
                };
                proof {
                    lemma_encodable::<EchoPayload>(reply@);
                }
                match output.send(&reply) {
                    Ok(()) => {},
                    Err(e) => {
                        return Err(e);
                    },
                }
            },
            EchoPayload::EchoOk { .. } => {},
        }
        self.id = advance(self.id);
        Ok(())
    }
}

/// A message that is no request gets no reply and does not stop the node.
pub proof fn lemma_echo_passes_over(
    node: EchoState,
    message: MessageView<EchoView>,
    output: Seq<Seq<char>>,
    after: EchoState,
    written: Seq<Seq<char>>,
    result: Result<(), Error>,
)
    requires
        node.handled(message, output, after, written, result),
        message.body.payload is EchoOk,
    ensures
        written == output,
        result == Ok::<(), Error>(()),
{
}

} // verus!
