//! What an application implements to answer messages.

use crate::error::Error;
use crate::message::{Message, MessageView};
use crate::output::Output;
use crate::payload::Codec;
use vstd::prelude::*;

verus! {

/// The number that follows a node's number, as long as there is one.
pub open spec fn next_number(id: usize) -> usize {
    if id < usize::MAX {
        (id + 1) as usize
    } else {
        id
    }
}

/// Moves a node's number on by one, as long as there is one to move on to.
pub fn advance(id: usize) -> (next: usize)
    ensures
        next == next_number(id),
{
    if id < usize::MAX {
        id + 1
    } else {
        id
    }
}

/// A handler of the messages of one application.
///
/// The runtime calls `handle` once for every envelope that it could decode,
/// after the handshake, in the order of the input and never twice at once.
pub trait Node<P: Codec>: Sized {
    /// What one call of `handle` may do: how the node that received
    /// `message` with `output` written so far relates to the node `after`
    /// it, the output `written` by then, and the `result`.
    spec fn handled(
        self,
        message: MessageView<P::V>,
        output: Seq<Seq<char>>,
        after: Self,
        written: Seq<Seq<char>>,
        result: Result<(), Error>,
    ) -> bool;

    /// Answers one message: changes the node's own state and writes any
    /// number of replies. What was written before stays as it is.
    fn handle(&mut self, message: Message<P>, output: &mut Output) -> (result: Result<(), Error>)
        ensures
            old(self).handled(message@, old(output)@, *final(self), final(output)@, result),
            old(output)@.is_prefix_of(final(output)@),
    ;
}

} // verus!
