//! The wire form of an envelope: a JSON object with `src`, `dest` and `body`,
//! the body holding the payload's members and the two identifiers.

use crate::error::Error;
use crate::json::{
    distinct_keys, find, lemma_lookup_concat, lemma_lookup_first, lemma_view_object, lookup,
    members_view, parsed, printed, Json, JsonView,
};
use crate::message::{Body, BodyView, Message, MessageView};
use crate::payload::{fits_in_body, Codec};
use crate::wire::{
    as_id, as_text, id_json, lemma_written_renderable, read_id, read_text, text_json, write_id,
    write_text,
};
use vstd::prelude::*;

verus! {

/// The two identifiers as they close a body.
pub open spec fn identifiers(
    msg_id: Option<usize>,
    in_reply_to: Option<usize>,
) -> Seq<(Seq<char>, JsonView)> {
    seq![("msg_id"@, id_json(msg_id)), ("in_reply_to"@, id_json(in_reply_to))]
}

/// The members of a body: the payload's, then the two identifiers.
pub open spec fn body_members<P: Codec>(body: BodyView<P::V>) -> Seq<(Seq<char>, JsonView)> {
    P::encoded(body.payload) + identifiers(body.msg_id, body.in_reply_to)
}

/// The members of an envelope.
pub open spec fn envelope_members<P: Codec>(message: MessageView<P::V>) -> Seq<
    (Seq<char>, JsonView),
> {
    seq![
        ("src"@, text_json(message.src)),
        ("dest"@, text_json(message.dest)),
        ("body"@, JsonView::Object(body_members::<P>(message.body))),
    ]
}

/// The JSON object that stands for an envelope.
pub open spec fn envelope_json<P: Codec>(message: MessageView<P::V>) -> JsonView {
    JsonView::Object(envelope_members::<P>(message))
}

/// An envelope of which the payload has not been read yet.
pub struct Frame<'a> {
    pub src: String,
    pub dest: String,
    /// All members of the body.
    pub body: &'a Vec<(String, Json)>,
    pub msg_id: Option<usize>,
    pub in_reply_to: Option<usize>,
}

/// The mathematical value of a [`Frame`].
pub struct FrameView {
    pub src: Seq<char>,
    pub dest: Seq<char>,
    pub body: Seq<(Seq<char>, JsonView)>,
    pub msg_id: Option<usize>,
    pub in_reply_to: Option<usize>,
}

impl<'a> View for Frame<'a> {
    type V = FrameView;

    open spec fn view(&self) -> FrameView {
        FrameView {
            src: self.src@,
            dest: self.dest@,
            body: members_view(self.body@),
            msg_id: self.msg_id,
            in_reply_to: self.in_reply_to,
        }
    }
}

/// The frame that a JSON value holds: an object with a string under `src`,
/// a string under `dest` and an object under `body`, in which `msg_id` and
/// `in_reply_to` are each missing, null or a number that fits.
pub open spec fn frame_of(json: JsonView) -> Option<FrameView> {
    match json {
        JsonView::Object(members) => match (
            as_text(lookup(members, "src"@)),
            as_text(lookup(members, "dest"@)),
            lookup(members, "body"@),
        ) {
            (Some(src), Some(dest), Some(JsonView::Object(body))) => match (
                as_id(lookup(body, "msg_id"@)),
                as_id(lookup(body, "in_reply_to"@)),
            ) {
                (Some(msg_id), Some(in_reply_to)) => Some(
                    FrameView { src, dest, body, msg_id, in_reply_to },
                ),
                _ => None,
            },
            _ => None,
        },
        _ => None,
    }
}

/// The envelope that a frame holds, once its payload is read.
pub open spec fn framed<P: Codec>(frame: FrameView) -> Option<MessageView<P::V>> {
    match P::decoded(frame.body) {
        Some(payload) => Some(
            MessageView {
                src: frame.src,
                dest: frame.dest,
                body: BodyView { payload, msg_id: frame.msg_id, in_reply_to: frame.in_reply_to },
            },
        ),
        None => None,
    }
}

/// The envelope that a JSON value holds.
pub open spec fn message_of<P: Codec>(json: JsonView) -> Option<MessageView<P::V>> {
    match frame_of(json) {
        Some(frame) => framed::<P>(frame),
        None => None,
    }
}

/// The envelope that a line of text holds, or the fault in it.
pub open spec fn decoded_line<P: Codec>(line: Seq<char>) -> Result<MessageView<P::V>, Error> {
    match parsed(line) {
        Some(json) => match message_of::<P>(json) {
            Some(message) => Ok(message),
            None => Err(Error::MalformedMessage),
        },
        None => Err(Error::MalformedMessage),
    }
}

/// The line of text that stands for an envelope whose payload is valid.
pub open spec fn line_of<P: Codec>(message: MessageView<P::V>) -> Seq<char> {
    printed(envelope_json::<P>(message))
}

/// The line of text that stands for an envelope, where it has one.
pub open spec fn encoded_line<P: Codec>(message: MessageView<P::V>) -> Option<Seq<char>> {
    if envelope_json::<P>(message).renderable() {
        Some(line_of::<P>(message))
    } else {
        None
    }
}

/// The keys of an envelope differ from one another, and so do those of the
/// identifiers.
pub proof fn lemma_envelope_keys()
    ensures
        "src"@ != "dest"@,
        "src"@ != "body"@,
        "dest"@ != "body"@,
        "msg_id"@ != "in_reply_to"@,
{
    reveal_strlit("src");
    reveal_strlit("dest");
    reveal_strlit("body");
    reveal_strlit("msg_id");
    reveal_strlit("in_reply_to");
    assert("dest"@[0] != "body"@[0]);
    assert("src"@.len() != "dest"@.len());
    assert("msg_id"@.len() != "in_reply_to"@.len());
}

/// Reading the JSON object that stands for an envelope gives the envelope
/// back, field for field.
pub proof fn lemma_round_trip<P: Codec>(message: MessageView<P::V>)
    ensures
        message_of::<P>(envelope_json::<P>(message)) == Some(message),
{
    lemma_envelope_keys();
    let members = envelope_members::<P>(message);
    lemma_lookup_first(members, "src"@, 0);
    lemma_lookup_first(members, "dest"@, 1);
    lemma_lookup_first(members, "body"@, 2);
    let payload = P::encoded(message.body.payload);
    let ids = identifiers(message.body.msg_id, message.body.in_reply_to);
    P::lemma_codec(message.body.payload, ids);
    lemma_lookup_concat(payload, ids, "msg_id"@);
    lemma_lookup_concat(payload, ids, "in_reply_to"@);
    lemma_lookup_first(ids, "msg_id"@, 0);
    lemma_lookup_first(ids, "in_reply_to"@, 1);
}

/// Where the text that is written for an envelope reads back as the JSON
/// object that it was written for, decoding the line gives the envelope
/// back.
pub proof fn lemma_line_round_trip<P: Codec>(message: MessageView<P::V>)
    ensures
        parsed(line_of::<P>(message)) == Some(envelope_json::<P>(message)) ==> decoded_line::<P>(
            line_of::<P>(message),
        ) == Ok::<MessageView<P::V>, Error>(message),
{
    lemma_round_trip::<P>(message);
}

/// An envelope has a text form exactly where its payload is valid.
pub proof fn lemma_encodable<P: Codec>(message: MessageView<P::V>)
    ensures
        encoded_line::<P>(message) is Some <==> P::valid(message.body.payload),
{
    reveal_with_fuel(JsonView::renderable, 3);
    lemma_envelope_keys();
    let payload = P::encoded(message.body.payload);
    let ids = identifiers(message.body.msg_id, message.body.in_reply_to);
    let body = body_members::<P>(message.body);
    let members = envelope_members::<P>(message);
    P::lemma_codec(message.body.payload, ids);
    lemma_written_renderable(message.src, 0, message.body.msg_id, Seq::empty(), Seq::empty());
    lemma_written_renderable(
        message.dest,
        0,
        message.body.in_reply_to,
        Seq::empty(),
        Seq::empty(),
    );
    assert(distinct_keys(members));
    if P::valid(message.body.payload) {
        assert(fits_in_body(payload));
        assert forall|i: int, j: int| 0 <= i < j < body.len() implies body[i].0 != body[j].0 by {
            if j < payload.len() {
                assert(body[i] == payload[i] && body[j] == payload[j]);
            } else if i < payload.len() {
                assert(body[i] == payload[i]);
                assert(body[j] == ids[j - payload.len()]);
            } else {
                assert(body[i] == ids[i - payload.len()]);
                assert(body[j] == ids[j - payload.len()]);
            }
        }
        assert forall|i: int| 0 <= i < body.len() implies (#[trigger] body[i]).1.renderable() by {
            if i < payload.len() {
                assert(body[i] == payload[i]);
            } else {
                assert(body[i] == ids[i - payload.len()]);
            }
        }
        assert(JsonView::Object(body).renderable());
        assert(members[2].1.renderable());
        assert(envelope_json::<P>(message).renderable());
    }
    if envelope_json::<P>(message).renderable() {
        assert(members[2].1.renderable());
        assert(distinct_keys(body));
        assert forall|i: int, j: int| 0 <= i < j < payload.len() implies payload[i].0
            != payload[j].0 by {
            assert(body[i] == payload[i] && body[j] == payload[j]);
        }
        assert forall|i: int| 0 <= i < payload.len() implies (#[trigger] payload[i]).0 != "msg_id"@
            && payload[i].0 != "in_reply_to"@ by {
            assert(body[i] == payload[i]);
            assert(body[payload.len() as int] == ids[0]);
            assert(body[payload.len() as int + 1] == ids[1]);
        }
        assert forall|i: int| 0 <= i < payload.len() implies (
        #[trigger] payload[i]).1.renderable() by {
            assert(body[i] == payload[i]);
            assert(body[i].1.renderable());
        }
        assert(fits_in_body(payload));
    }
}

/// Reads the frame of an envelope. `None` where a part of it is missing
/// or of another type.
pub fn read_frame<'a>(json: &'a Json) -> (frame: Option<Frame<'a>>)
    ensures
        match frame {
            Some(f) => frame_of(json@) == Some(f@),
            None => frame_of(json@) is None,
        },
{
    let members = match json {
        Json::Object(members) => members,
        _ => {
            return None;
        },
    };
    proof {
        lemma_view_object(*members);
    }
    let src = match read_text(find(members, "src")) {
        Some(src) => src,
        None => {
            return None;
        },
    };
    let dest = match read_text(find(members, "dest")) {
        Some(dest) => dest,
        None => {
            return None;
        },
    };
    let body = match find(members, "body") {
        Some(Json::Object(body)) => body,
        _ => {
            return None;
        },
    };
    proof {
        lemma_view_object(*body);
    }
    let msg_id = match read_id(find(body, "msg_id")) {
        Some(id) => id,
        None => {
            return None;
        },
    };
    let in_reply_to = match read_id(find(body, "in_reply_to")) {
        Some(id) => id,
        None => {
            return None;
        },
    };
    Some(Frame { src, dest, body, msg_id, in_reply_to })
}

impl<P: Codec> Message<P> {
    /// Makes the JSON object that stands for the envelope.
    pub fn to_json(&self) -> (json: Json)
        ensures
            json@ == envelope_json::<P>(self@),
    {
        let mut body = self.body.type_.encode();
        body.push(("msg_id".to_owned(), write_id(self.body.msg_id)));
        body.push(("in_reply_to".to_owned(), write_id(self.body.in_reply_to)));
        let mut members: Vec<(String, Json)> = Vec::new();
        members.push(("src".to_owned(), write_text(&self.src)));
        members.push(("dest".to_owned(), write_text(&self.dest)));
        proof {
            lemma_view_object(body);
            assert(members_view(body@) =~= body_members::<P>(self@.body));
        }
        members.push(("body".to_owned(), Json::Object(body)));
        proof {
            lemma_view_object(members);
            assert(members_view(members@) =~= envelope_members::<P>(self@));
        }
        Json::Object(members)
    }

    /// Reads an envelope out of a JSON value.
    pub fn from_json(json: &Json) -> (message: Result<Message<P>, Error>)
        ensures
            match message {
                Ok(m) => message_of::<P>(json@) == Some(m@),
                Err(e) => e == Error::MalformedMessage && message_of::<P>(json@) is None,
            },
    {
        match read_frame(json) {
            Some(frame) => Self::from_frame(frame),
            None => Err(Error::MalformedMessage),
        }
    }

    /// Reads the payload of a frame.
    pub fn from_frame(frame: Frame<'_>) -> (message: Result<Message<P>, Error>)
        ensures
            match message {
                Ok(m) => framed::<P>(frame@) == Some(m@),
                Err(e) => e == Error::MalformedMessage && framed::<P>(frame@) is None,
            },
    {
        match P::decode(frame.body) {
            Some(payload) => Ok(
                Message {
                    src: frame.src,
                    dest: frame.dest,
                    body: Body {
                        type_: payload,
                        msg_id: frame.msg_id,
                        in_reply_to: frame.in_reply_to,
                    },
                },
            ),
            None => Err(Error::MalformedMessage),
        }
    }

    /// Writes the envelope as one line of JSON text, without a line end.
    /// Fails only for a payload that is not valid.
    pub fn encode(&self) -> (line: Result<String, Error>)
        ensures
            match line {
                Ok(text) => encoded_line::<P>(self@) == Some(text@),
                Err(e) => e == Error::Unencodable && encoded_line::<P>(self@) is None,
            },
            line is Ok <==> P::valid(self@.body.payload),
    {
        proof {
            lemma_encodable::<P>(self@);
        }
        match self.to_json().render() {
            Some(text) => Ok(text),
            None => Err(Error::Unencodable),
        }
    }

    /// Reads an envelope from one line of JSON text.
    pub fn decode(line: &str) -> (message: Result<Message<P>, Error>)
        ensures
            match message {
                Ok(m) => decoded_line::<P>(line@) == Ok::<MessageView<P::V>, Error>(m@),
                Err(e) => decoded_line::<P>(line@) == Err::<MessageView<P::V>, Error>(e),
            },
    {
        match Json::parse(line) {
            Some(json) => Self::from_json(&json),
            None => Err(Error::MalformedMessage),
        }
    }
}

} // verus!
