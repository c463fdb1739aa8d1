//! The identifier application: every request gets an identifier that no
//! other request gets, on this node or another.

use crate::envelope::{lemma_encodable, line_of};
use crate::error::Error;
use crate::json::{
    distinct_keys, find, lemma_lookup_absent, lookup, members_view, Json, JsonView,
};
use crate::message::{response_to, Body, Message, MessageView};
use crate::node::{advance, next_number, Node};
use crate::output::Output;
use crate::payload::{lemma_lookup_own, Codec, Payload};
use crate::text::same_text;
use crate::wire::{as_text, lemma_written_renderable, read_text, text_json, write_text};
use vstd::prelude::*;

verus! {

/// The payloads of the identifier application.
#[derive(Debug, PartialEq, Eq)]
pub enum IdsPayload {
    /// The request.
    Generate,
    /// The reply, with the new identifier.
    GenerateOk { id: String },
}

/// The mathematical value of an [`IdsPayload`].
pub enum IdsView {
    Generate,
    GenerateOk { id: Seq<char> },
}

impl View for IdsPayload {
    type V = IdsView;

    open spec fn view(&self) -> IdsView {
        match self {
            IdsPayload::Generate => IdsView::Generate,
            IdsPayload::GenerateOk { id } => IdsView::GenerateOk { id: id@ },
        }
    }
}

/// The keys and tags of the identifier application differ from one another,
/// and from the keys of the identifiers of a body.
pub proof fn lemma_ids_keys()
    ensures
        "generate"@ != "generate_ok"@,
        "type"@ != "id"@,
        "type"@ != "msg_id"@ && "type"@ != "in_reply_to"@,
        "id"@ != "msg_id"@ && "id"@ != "in_reply_to"@,
{
    reveal_strlit("generate");
    reveal_strlit("generate_ok");
    reveal_strlit("type");
    reveal_strlit("id");
    reveal_strlit("msg_id");
    reveal_strlit("in_reply_to");
    assert("generate"@.len() != "generate_ok"@.len());
    assert("type"@.len() != "id"@.len());
    assert("type"@.len() != "msg_id"@.len());
    assert("type"@.len() != "in_reply_to"@.len());
    assert("id"@.len() != "msg_id"@.len());
    assert("id"@.len() != "in_reply_to"@.len());
}

impl Codec for IdsPayload {
    open spec fn valid(payload: IdsView) -> bool {
        true
    }

    open spec fn encoded(payload: IdsView) -> Seq<(Seq<char>, JsonView)> {
        match payload {
            IdsView::Generate => seq![("type"@, text_json("generate"@))],
            IdsView::GenerateOk { id } => seq![
                ("type"@, text_json("generate_ok"@)),
                ("id"@, text_json(id)),
            ],
        }
    }

    open spec fn decoded(members: Seq<(Seq<char>, JsonView)>) -> Option<IdsView> {
        match as_text(lookup(members, "type"@)) {
            Some(tag) => if tag == "generate"@ {
                Some(IdsView::Generate)
            } else if tag == "generate_ok"@ {
                match as_text(lookup(members, "id"@)) {
                    Some(id) => Some(IdsView::GenerateOk { id }),
                    None => None,
                }
            } else {
                None
            },
            None => None,
        }
    }

    proof fn lemma_codec(payload: IdsView, rest: Seq<(Seq<char>, JsonView)>) {
        lemma_ids_keys();
        let own = Self::encoded(payload);
        assert(own[0].0 == "type"@);
        assert(own.len() == 2 ==> own[1].0 == "id"@);
        assert(distinct_keys(own));
        lemma_lookup_absent(own, "msg_id"@);
        lemma_lookup_absent(own, "in_reply_to"@);
        lemma_lookup_own(own, rest, 0);
        lemma_written_renderable("generate"@, 0, None, Seq::empty(), Seq::empty());
        lemma_written_renderable("generate_ok"@, 0, None, Seq::empty(), Seq::empty());
        match payload {
            IdsView::Generate => {},
            IdsView::GenerateOk { id } => {
                lemma_lookup_own(own, rest, 1);
                lemma_written_renderable(id, 0, None, Seq::empty(), Seq::empty());
            },
        }
    }

    fn encode(&self) -> (members: Vec<(String, Json)>) {
        let mut members: Vec<(String, Json)> = Vec::new();
        match self {
            IdsPayload::Generate => {
                members.push(("type".to_owned(), Json::Str("generate".to_owned())));
            },
            IdsPayload::GenerateOk { id } => {
                members.push(("type".to_owned(), Json::Str("generate_ok".to_owned())));
                members.push(("id".to_owned(), write_text(id)));
            },
        }
        assert(members_view(members@) =~= Self::encoded(self@));
        members
    }

    fn decode(members: &Vec<(String, Json)>) -> (payload: Option<IdsPayload>) {
        let tag = match read_text(find(members, "type")) {
            Some(tag) => tag,
            None => {
                return None;
            },
        };
        if same_text(tag.as_str(), "generate") {
            Some(IdsPayload::Generate)
        } else if same_text(tag.as_str(), "generate_ok") {
            match read_text(find(members, "id")) {
                Some(id) => Some(IdsPayload::GenerateOk { id }),
                None => None,
            }
        } else {
            None
        }
    }
}

impl Payload for IdsPayload {}

/// The identifier node: nothing but the number of its next message.
#[derive(Debug, PartialEq, Eq)]
pub struct IdsState {
    pub id: usize,
}

/// The reply to a request for an identifier: the answer to it, with the
/// identifier handed out.
pub open spec fn generate_reply(
    request: MessageView<IdsView>,
    id: usize,
    generated: Seq<char>,
) -> MessageView<IdsView> {
    response_to(request, id).with_payload(IdsView::GenerateOk { id: generated })
}

impl IdsState {
    /// Calls `Uuid::new_v4` and writes the identifier as text, through its
    /// `Display`. It is drawn at random, so nothing is said of it. Where the
    /// system's source of random bytes fails, the call panics.
    #[verifier::external_body]
    fn get_next_id() -> String {
        uuid::Uuid::new_v4().to_string()
    }

    /// Makes the reply that hands out `generated`, from the response that
    /// [`Message::into_response`] made of the request.
    pub fn answer(response: Message<IdsPayload>, generated: String) -> (reply: Message<IdsPayload>)
        ensures
            reply@ == response@.with_payload(IdsView::GenerateOk { id: generated@ }),
    {
        Message {
            src: response.src,
            dest: response.dest,
            body: Body {
                type_: IdsPayload::GenerateOk { id: generated },
                msg_id: response.body.msg_id,
                in_reply_to: response.body.in_reply_to,
            },
        }
    }
}

impl Node<IdsPayload> for IdsState {
    /// Every message takes one number, as long as there is one. A request is
    /// answered with some identifier; a node that has no number left for the
    /// answer fails and does nothing. A reply is passed over in silence.
    open spec fn handled(
        self,
        message: MessageView<IdsView>,
        output: Seq<Seq<char>>,
        after: IdsState,
        written: Seq<Seq<char>>,
        result: Result<(), Error>,
    ) -> bool {
        match message.body.payload {
            IdsView::Generate => if self.id == usize::MAX {
                after == self && written == output && result == Err::<(), Error>(
                    Error::IdsExhausted,
                )
            } else {
                &&& after.id == self.id + 1
                &&& exists|generated: Seq<char>|
                    written == output.push(
                        #[trigger] line_of::<IdsPayload>(
                            generate_reply(message, self.id, generated),
                        ),
                    )
                &&& result == Ok::<(), Error>(())
            },
            IdsView::GenerateOk { .. } => {
                &&& after.id == next_number(self.id)
                &&& written == output
                &&& result == Ok::<(), Error>(())
            },
        }
    }

    fn handle(&mut self, message: Message<IdsPayload>, output: &mut Output) -> (result: Result<
        (),
        Error,
    >) {
        let response = message.into_response(self.id);
        match response.body.type_ {
            IdsPayload::Generate => {
                if self.id == usize::MAX {
                    return Err(Error::IdsExhausted);
                }
                let reply = Self::answer(response, Self::get_next_id());
                proof {
                    lemma_encodable::<IdsPayload>(reply@);
                    assert(reply@ == generate_reply(message@, self.id, reply@.body.payload->id));
                }
                match output.send(&reply) {
                    Ok(()) => {},
                    Err(e) => {
                        return Err(e);
                    },
                }
            },
            IdsPayload::GenerateOk { .. } => {},
        }
        self.id = advance(self.id);
        Ok(())
    }
}

/// A message that is no request gets no reply and does not stop the node.
pub proof fn lemma_ids_passes_over(
    node: IdsState,
    message: MessageView<IdsView>,
    output: Seq<Seq<char>>,
    after: IdsState,
    written: Seq<Seq<char>>,
    result: Result<(), Error>,
)
    requires
        node.handled(message, output, after, written, result),
        message.body.payload is GenerateOk,
    ensures
        written == output,
        result == Ok::<(), Error>(()),
{
}

} // verus!
