//! What an application has to say of its payloads for them to travel.

use crate::error::Error;
use crate::init::{handshake, shaken, NodeIdentity};
use crate::json::{distinct_keys, lemma_lookup_first, lookup, members_view, Json, JsonView};
use crate::output::Output;
use vstd::prelude::*;

verus! {

/// Whether members can stand in a body beside the two identifiers: no key
/// occurs twice, none is the key of an identifier, and every value has a
/// text form.
pub open spec fn fits_in_body(members: Seq<(Seq<char>, JsonView)>) -> bool {
    &&& distinct_keys(members)
    &&& forall|i: int|
        0 <= i < members.len() ==> (#[trigger] members[i]).0 != "msg_id"@ && members[i].0
            != "in_reply_to"@
    &&& forall|i: int| 0 <= i < members.len() ==> (#[trigger] members[i]).1.renderable()
}

/// Among members with distinct keys, each is found under its own key,
/// whatever follows them.
pub proof fn lemma_lookup_own(
    own: Seq<(Seq<char>, JsonView)>,
    rest: Seq<(Seq<char>, JsonView)>,
    at: int,
)
    requires
        distinct_keys(own),
        0 <= at < own.len(),
    ensures
        lookup(own + rest, own[at].0) == Some(own[at].1),
{
    let all = own + rest;
    assert forall|k: int| 0 <= k < at implies all[k].0 != own[at].0 by {
        assert(all[k] == own[k]);
    }
    assert(all[at] == own[at]);
    lemma_lookup_first(all, own[at].0, at);
}

/// How the payloads of one application stand on the wire.
///
/// A payload is spread over the members of the body: the tag under `"type"`,
/// each field under its name.
pub trait Codec: View + Sized {
    /// Whether a payload has a text form.
    spec fn valid(payload: Self::V) -> bool;

    /// The members that stand for a payload: first the tag, then the fields.
    spec fn encoded(payload: Self::V) -> Seq<(Seq<char>, JsonView)>;

    /// The payload that the members of a body stand for, if any. Members
    /// that the variant does not name are passed over.
    spec fn decoded(members: Seq<(Seq<char>, JsonView)>) -> Option<Self::V>;

    /// What is written reads back as the same payload, whatever members
    /// follow it, and leaves the identifiers' keys alone; the members of a
    /// valid payload can stand in a body.
    proof fn lemma_codec(payload: Self::V, rest: Seq<(Seq<char>, JsonView)>)
        ensures
            Self::decoded(Self::encoded(payload) + rest) == Some(payload),
            lookup(Self::encoded(payload), "msg_id"@) is None,
            lookup(Self::encoded(payload), "in_reply_to"@) is None,
            Self::valid(payload) <==> fits_in_body(Self::encoded(payload)),
    ;

    /// Writes the members that stand for the payload.
    fn encode(&self) -> (members: Vec<(String, Json)>)
        ensures
            members_view(members@) == Self::encoded(self@),
    ;

    /// Reads the payload out of the members of a body. `None` where the tag
    /// is missing or unknown, or a field of the variant is missing or of
    /// another type.
    fn decode(members: &Vec<(String, Json)>) -> (payload: Option<Self>)
        ensures
            match payload {
                Some(p) => Self::decoded(members_view(members@)) == Some(p@),
                None => Self::decoded(members_view(members@)) is None,
            },
    ;
}

/// The payloads of one application: a closed set of variants, each with a tag
/// and its own fields.
pub trait Payload: Codec {
    /// Performs the handshake that comes before any payload of the
    /// application: see [`handshake`].
    fn handle_init(first: Option<&str>, output: &mut Output) -> (result: Result<
        NodeIdentity,
        Error,
    >)
        ensures
            shaken(first, old(output)@, final(output)@, result),
    {
        handshake(first, output)
    }
}

} // verus!
