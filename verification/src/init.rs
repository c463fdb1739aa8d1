//! The handshake: the first message gives the node its name and its peers.

use crate::envelope::{frame_of, lemma_encodable, line_of, read_frame};
use crate::error::Error;
use crate::json::{
    distinct_keys, find, lemma_lookup_absent, lookup, members_view, parsed, Json, JsonView,
};
use crate::message::{Body, BodyView, Message, MessageView};
use crate::output::Output;
use crate::payload::{lemma_lookup_own, Codec, Payload};
use crate::text::same_text;
use crate::wire::{
    as_text, as_texts, lemma_texts_read_back, lemma_written_renderable, read_text, read_texts,
    text_json, texts_json, texts_view, write_text, write_texts,
};
use vstd::prelude::*;

verus! {

/// The payloads of the handshake.
#[derive(Debug, PartialEq, Eq)]
pub enum Init {
    /// The request: the node's own name, and the names of all nodes, its own
    /// among them.
    Init { node_id: String, node_ids: Vec<String> },
    /// The acknowledgement.
    InitOk,
}

/// The mathematical value of an [`Init`].
pub enum InitView {
    Init { node_id: Seq<char>, node_ids: Seq<Seq<char>> },
    InitOk,
}

impl View for Init {
    type V = InitView;

    open spec fn view(&self) -> InitView {
        match self {
            Init::Init { node_id, node_ids } => InitView::Init {
                node_id: node_id@,
                node_ids: texts_view(node_ids@),
            },
            Init::InitOk => InitView::InitOk,
        }
    }
}

/// The keys and tags of the handshake differ from one another, and from the
/// keys of the identifiers.
pub proof fn lemma_init_keys()
    ensures
        "init"@ != "init_ok"@,
        "type"@ != "node_id"@,
        "type"@ != "node_ids"@,
        "node_id"@ != "node_ids"@,
        "type"@ != "msg_id"@ && "type"@ != "in_reply_to"@,
        "node_id"@ != "msg_id"@ && "node_id"@ != "in_reply_to"@,
        "node_ids"@ != "msg_id"@ && "node_ids"@ != "in_reply_to"@,
{
    reveal_strlit("init");
    reveal_strlit("init_ok");
    reveal_strlit("type");
    reveal_strlit("node_id");
    reveal_strlit("node_ids");
    reveal_strlit("msg_id");
    reveal_strlit("in_reply_to");
    assert("init"@.len() != "init_ok"@.len());
    assert("type"@.len() != "node_id"@.len());
    assert("type"@.len() != "node_ids"@.len());
    assert("node_id"@.len() != "node_ids"@.len());
    assert("type"@.len() != "msg_id"@.len());
    assert("type"@.len() != "in_reply_to"@.len());
    assert("node_id"@.len() != "msg_id"@.len());
    assert("node_id"@.len() != "in_reply_to"@.len());
    assert("node_ids"@.len() != "msg_id"@.len());
    assert("node_ids"@.len() != "in_reply_to"@.len());
}

impl Codec for Init {
    open spec fn valid(payload: InitView) -> bool {
        true
    }

    open spec fn encoded(payload: InitView) -> Seq<(Seq<char>, JsonView)> {
        match payload {
            InitView::Init { node_id, node_ids } => seq![
                ("type"@, text_json("init"@)),
                ("node_id"@, text_json(node_id)),
                ("node_ids"@, texts_json(node_ids)),
            ],
            InitView::InitOk => seq![("type"@, text_json("init_ok"@))],
        }
    }

    open spec fn decoded(members: Seq<(Seq<char>, JsonView)>) -> Option<InitView> {
        match as_text(lookup(members, "type"@)) {
            Some(tag) => if tag == "init"@ {
                match (
                    as_text(lookup(members, "node_id"@)),
                    as_texts(lookup(members, "node_ids"@)),
                ) {
                    (Some(node_id), Some(node_ids)) => Some(InitView::Init { node_id, node_ids }),
                    _ => None,
                }
            } else if tag == "init_ok"@ {
                Some(InitView::InitOk)
            } else {
                None
            },
            None => None,
        }
    }

    proof fn lemma_codec(payload: InitView, rest: Seq<(Seq<char>, JsonView)>) {
        lemma_init_keys();
        let own = Self::encoded(payload);
        assert(own[0].0 == "type"@);
        assert(own.len() == 3 ==> own[1].0 == "node_id"@ && own[2].0 == "node_ids"@);
        assert(distinct_keys(own));
        lemma_lookup_absent(own, "msg_id"@);
        lemma_lookup_absent(own, "in_reply_to"@);
        lemma_lookup_own(own, rest, 0);
        match payload {
            InitView::Init { node_id, node_ids } => {
                lemma_lookup_own(own, rest, 1);
                lemma_lookup_own(own, rest, 2);
                lemma_texts_read_back(node_ids);
                lemma_written_renderable(node_id, 0, None, node_ids, Seq::empty());
                lemma_written_renderable("init"@, 0, None, node_ids, Seq::empty());
            },
            InitView::InitOk => {
                lemma_written_renderable("init_ok"@, 0, None, Seq::empty(), Seq::empty());
            },
        }
    }

    fn encode(&self) -> (members: Vec<(String, Json)>) {
        let mut members: Vec<(String, Json)> = Vec::new();
        match self {
            Init::Init { node_id, node_ids } => {
                members.push(("type".to_owned(), Json::Str("init".to_owned())));
                members.push(("node_id".to_owned(), write_text(node_id)));
                members.push(("node_ids".to_owned(), write_texts(node_ids)));
            },
            Init::InitOk => {
                members.push(("type".to_owned(), Json::Str("init_ok".to_owned())));
            },
        }
        assert(members_view(members@) =~= Self::encoded(self@));
        members
    }

    fn decode(members: &Vec<(String, Json)>) -> (payload: Option<Init>) {
        let tag = match read_text(find(members, "type")) {
            Some(tag) => tag,
            None => {
                return None;
            },
        };
        if same_text(tag.as_str(), "init") {
            let node_id = match read_text(find(members, "node_id")) {
                Some(node_id) => node_id,
                None => {
                    return None;
                },
            };
            let node_ids = match read_texts(find(members, "node_ids")) {
                Some(node_ids) => node_ids,
                None => {
                    return None;
                },
            };
            Some(Init::Init { node_id, node_ids })
        } else if same_text(tag.as_str(), "init_ok") {
            Some(Init::InitOk)
        } else {
            None
        }
    }
}

impl Payload for Init {}

/// Who a node is: its own name and the names of all nodes, its own among
/// them. The handshake sets it once; nothing changes it afterwards.
#[derive(Debug, PartialEq, Eq)]
pub struct NodeIdentity {
    pub node_id: String,
    pub node_ids: Vec<String>,
}

/// The mathematical value of a [`NodeIdentity`].
pub struct NodeIdentityView {
    pub node_id: Seq<char>,
    pub node_ids: Seq<Seq<char>>,
}

impl View for NodeIdentity {
    type V = NodeIdentityView;

    open spec fn view(&self) -> NodeIdentityView {
        NodeIdentityView { node_id: self.node_id@, node_ids: texts_view(self.node_ids@) }
    }
}

/// What a handshake gives: the node's identity, and the acknowledgement to
/// be written.
pub struct Handshake {
    pub identity: NodeIdentityView,
    pub reply: MessageView<InitView>,
}

/// The acknowledgement of an initialization request: it goes back to the
/// sender and answers the request's number. It is numbered with that same
/// number, not from the node's counter: the handshake comes before any
/// handler and takes none of the node's numbers.
pub open spec fn acknowledgement(
    src: Seq<char>,
    dest: Seq<char>,
    msg_id: Option<usize>,
) -> MessageView<InitView> {
    MessageView {
        src: dest,
        dest: src,
        body: BodyView { payload: InitView::InitOk, msg_id, in_reply_to: msg_id },
    }
}

/// What the first line of input leads to. A line that is no envelope is
/// malformed; an envelope of another type than `init` breaks the protocol;
/// an `init` without its fields is malformed again.
pub open spec fn handshake_of(line: Seq<char>) -> Result<Handshake, Error> {
    match parsed(line) {
        None => Err(Error::MalformedMessage),
        Some(json) => match frame_of(json) {
            None => Err(Error::MalformedMessage),
            Some(frame) => match as_text(lookup(frame.body, "type"@)) {
                None => Err(Error::MalformedMessage),
                Some(tag) => if tag != "init"@ {
                    Err(Error::HandshakeProtocolViolation)
                } else {
                    match Init::decoded(frame.body) {
                        Some(InitView::Init { node_id, node_ids }) => Ok(
                            Handshake {
                                identity: NodeIdentityView { node_id, node_ids },
                                reply: acknowledgement(frame.src, frame.dest, frame.msg_id),
                            },
                        ),
                        _ => Err(Error::MalformedMessage),
                    }
                },
            },
        },
    }
}

/// What a handshake on the first line of input does, `None` where the input
/// ended before any line: it writes the acknowledgement and gives the node's
/// identity; on a fault it writes nothing.
pub open spec fn shaken(
    first: Option<&str>,
    output: Seq<Seq<char>>,
    written: Seq<Seq<char>>,
    result: Result<NodeIdentity, Error>,
) -> bool {
    match first {
        None => result == Err::<NodeIdentity, Error>(Error::HandshakeMissing) && written == output,
        Some(line) => match handshake_of(line@) {
            Ok(shake) => {
                &&& result matches Ok(identity) && identity@ == shake.identity
                &&& written == output.push(line_of::<Init>(shake.reply))
            },
            Err(e) => result == Err::<NodeIdentity, Error>(e) && written == output,
        },
    }
}

/// Performs the handshake on the first line of input, `None` where the input
/// ended before any line.
pub fn handshake(first: Option<&str>, output: &mut Output) -> (result: Result<NodeIdentity, Error>)
    ensures
        shaken(first, old(output)@, final(output)@, result),
{
    let line = match first {
        Some(line) => line,
        None => {
            return Err(Error::HandshakeMissing);
        },
    };
    let json = match Json::parse(line) {
        Some(json) => json,
        None => {
            return Err(Error::MalformedMessage);
        },
    };
    let frame = match read_frame(&json) {
        Some(frame) => frame,
        None => {
            return Err(Error::MalformedMessage);
        },
    };
    let tag = match read_text(find(frame.body, "type")) {
        Some(tag) => tag,
        None => {
            return Err(Error::MalformedMessage);
        },
    };
    if !same_text(tag.as_str(), "init") {
        return Err(Error::HandshakeProtocolViolation);
    }
    match Init::decode(frame.body) {
        Some(Init::Init { node_id, node_ids }) => {
            let reply = Message {
                src: frame.dest,
                dest: frame.src,
                body: Body { type_: Init::InitOk, msg_id: frame.msg_id, in_reply_to: frame.msg_id },
            };
            proof {
                lemma_encodable::<Init>(reply@);
            }
            match output.send(&reply) {
                Ok(()) => Ok(NodeIdentity { node_id, node_ids }),
                Err(e) => Err(e),
            }
        },
        _ => Err(Error::MalformedMessage),
    }
}

} // verus!
