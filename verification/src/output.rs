//! The lines that a node has written.

use crate::envelope::encoded_line;
use crate::error::Error;
use crate::message::{Message, MessageView};
use crate::payload::Codec;
use crate::wire::texts_view;
use vstd::prelude::*;

verus! {

/// The outgoing stream of a node: the lines written so far, each one
/// envelope, oldest first. Whoever owns the real stream writes them out, each
/// followed by a line end.
#[derive(Debug, PartialEq, Eq)]
pub struct Output {
    pub lines: Vec<String>,
}

impl View for Output {
    type V = Seq<Seq<char>>;

    open spec fn view(&self) -> Seq<Seq<char>> {
        texts_view(self.lines@)
    }
}

/// The stream after an envelope was sent on it: one line longer, unless the
/// envelope has no text form.
pub open spec fn after_send<P: Codec>(
    lines: Seq<Seq<char>>,
    message: MessageView<P::V>,
) -> Seq<Seq<char>> {
    match encoded_line::<P>(message) {
        Some(line) => lines.push(line),
        None => lines,
    }
}

/// How sending an envelope ends.
pub open spec fn send_result<P: Codec>(message: MessageView<P::V>) -> Result<(), Error> {
    match encoded_line::<P>(message) {
        Some(_) => Ok(()),
        None => Err(Error::Unencodable),
    }
}

impl Output {
    /// A stream on which nothing was written yet.
    pub fn new() -> (output: Output)
        ensures
            output@ == Seq::<Seq<char>>::empty(),
    {
        let output = Output { lines: Vec::new() };
        assert(output@ =~= Seq::<Seq<char>>::empty());
        output
    }

    /// Writes one envelope as a line.
    pub fn send<P: Codec>(&mut self, message: &Message<P>) -> (result: Result<(), Error>)
        ensures
            final(self)@ == after_send::<P>(old(self)@, message@),
            result == send_result::<P>(message@),
    {
        match message.encode() {
            Ok(line) => {
                self.lines.push(line);
                assert(self@ =~= old(self)@.push(line@));
                Ok(())
            },
            Err(e) => Err(e),
        }
    }

    /// Hands out the lines written so far and starts anew.
    pub fn take(&mut self) -> (lines: Vec<String>)
        ensures
            texts_view(lines@) == old(self)@,
            final(self)@ == Seq::<Seq<char>>::empty(),
    {
        let mut lines: Vec<String> = Vec::new();
        std::mem::swap(&mut lines, &mut self.lines);
        assert(self@ =~= Seq::<Seq<char>>::empty());
        lines
    }
}

} // verus!
