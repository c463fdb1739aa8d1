//! Envelopes: who sends, who receives, and the body that is sent.

use vstd::prelude::*;

verus! {

/// One request or reply.
#[derive(Debug, PartialEq, Eq)]
pub struct Body<P> {
    /// What the application says. On the wire its tag and fields stand beside
    /// the two identifiers, not below them.
    pub type_: P,
    /// The sender's own number for this body.
    pub msg_id: Option<usize>,
    /// The `msg_id` of the body that this one answers.
    pub in_reply_to: Option<usize>,
}

/// One message on the wire.
#[derive(Debug, PartialEq, Eq)]
pub struct Message<P> {
    pub src: String,
    pub dest: String,
    pub body: Body<P>,
}

/// The mathematical value of a [`Body`].
pub struct BodyView<V> {
    pub payload: V,
    pub msg_id: Option<usize>,
    pub in_reply_to: Option<usize>,
}

/// The mathematical value of a [`Message`].
pub struct MessageView<V> {
    pub src: Seq<char>,
    pub dest: Seq<char>,
    pub body: BodyView<V>,
}

impl<P: View> View for Body<P> {
    type V = BodyView<P::V>;

    open spec fn view(&self) -> BodyView<P::V> {
        BodyView { payload: self.type_@, msg_id: self.msg_id, in_reply_to: self.in_reply_to }
    }
}

impl<P: View> View for Message<P> {
    type V = MessageView<P::V>;

    open spec fn view(&self) -> MessageView<P::V> {
        MessageView { src: self.src@, dest: self.dest@, body: self.body@ }
    }
}

/// The answer to a request, before the handler has put its own payload in:
/// the two ends swapped, the sender's number `id`, and the request's number
/// as what it answers.
pub open spec fn response_to<V>(request: MessageView<V>, id: usize) -> MessageView<V> {
    MessageView {
        src: request.dest,
        dest: request.src,
        body: BodyView {
            payload: request.body.payload,
            msg_id: Some(id),
            in_reply_to: request.body.msg_id,
        },
    }
}

impl<V> MessageView<V> {
    /// The same envelope with another payload.
    pub open spec fn with_payload<W>(self, payload: W) -> MessageView<W> {
        MessageView {
            src: self.src,
            dest: self.dest,
            body: BodyView {
                payload,
                msg_id: self.body.msg_id,
                in_reply_to: self.body.in_reply_to,
            },
        }
    }
}

impl<P: View> Message<P> {
    /// Turns a request into the answer to it, numbered `id`. The payload is
    /// still the request's: the handler replaces it.
    pub fn into_response(self, id: usize) -> (response: Message<P>)
        ensures
            response@ == response_to(self@, id),
    {
        Message {
            src: self.dest,
            dest: self.src,
            body: Body { type_: self.body.type_, msg_id: Some(id), in_reply_to: self.body.msg_id },
        }
    }
}

/// A reply goes back to where the request came from and names the request
/// that it answers, whatever payload the handler puts into it.
pub proof fn lemma_response_correlates<V, W>(request: MessageView<V>, id: usize, payload: W)
    ensures
        response_to(request, id).with_payload(payload).body.in_reply_to == request.body.msg_id,
        response_to(request, id).with_payload(payload).src == request.dest,
        response_to(request, id).with_payload(payload).dest == request.src,
        response_to(request, id).with_payload(payload).body.msg_id == Some(id),
        response_to(request, id).with_payload(payload).body.payload == payload,
{
}

} // verus!
