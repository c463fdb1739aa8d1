//! The dispatch loop: the handshake once, then every line to the handler, in
//! the order of arrival, until the input ends or something fails.

use crate::envelope::{decoded_line, line_of};
use crate::error::Error;
use crate::init::{handshake_of, Init, NodeIdentity};
use crate::message::Message;
use crate::node::Node;
use crate::output::Output;
use crate::payload::Payload;
use crate::wire::texts_view;
use vstd::prelude::*;

verus! {

/// A node at work: the handler, and the identity that the handshake gave, if
/// it has taken place.
#[derive(Debug)]
pub struct Session<N> {
    pub node: N,
    pub identity: Option<NodeIdentity>,
}

/// What one line of input does to a session.
///
/// Before the handshake the line is the first one: it is answered by the
/// acknowledgement and sets the identity, and the handler is not asked. After
/// it the identity stays as it is, and a line that decodes goes to the
/// handler, once; one that does not is a fault that changes nothing. Nothing
/// that was written before is changed.
pub open spec fn fed<P: Payload, N: Node<P>>(
    before: Session<N>,
    line: Seq<char>,
    output: Seq<Seq<char>>,
    after: Session<N>,
    written: Seq<Seq<char>>,
    result: Result<(), Error>,
) -> bool {
    match before.identity {
        None => {
            &&& after.node == before.node
            &&& match handshake_of(line) {
                Ok(shake) => {
                    &&& after.identity matches Some(identity) && identity@ == shake.identity
                    &&& written == output.push(line_of::<Init>(shake.reply))
                    &&& result == Ok::<(), Error>(())
                },
                Err(e) => {
                    &&& after.identity is None
                    &&& written == output
                    &&& result == Err::<(), Error>(e)
                },
            }
        },
        Some(_) => {
            &&& after.identity == before.identity
            &&& match decoded_line::<P>(line) {
                Ok(message) => {
                    &&& before.node.handled(message, output, after.node, written, result)
                    &&& output.is_prefix_of(written)
                },
                Err(e) => {
                    &&& after.node == before.node
                    &&& written == output
                    &&& result == Err::<(), Error>(e)
                },
            }
        },
    }
}

/// How a session ends when the input does: well, unless no line ever came.
pub open spec fn finished<N>(session: Session<N>) -> Result<(), Error> {
    match session.identity {
        Some(_) => Ok(()),
        None => Err(Error::HandshakeMissing),
    }
}

/// What a run over the lines of an input does to a session: each line is fed
/// in its turn to the session that the lines before it left, and the first
/// fault ends the run, with the lines after it unread.
pub open spec fn served<P: Payload, N: Node<P>>(
    start: Session<N>,
    lines: Seq<Seq<char>>,
    output: Seq<Seq<char>>,
    end: Session<N>,
    written: Seq<Seq<char>>,
    result: Result<(), Error>,
) -> bool
    decreases lines.len(),
{
    if lines.len() == 0 {
        end == start && written == output && result == finished(start)
    } else {
        exists|next: Session<N>, between: Seq<Seq<char>>, step: Result<(), Error>|
            {
                &&& #[trigger] fed::<P, N>(start, lines[0], output, next, between, step)
                &&& if step is Ok {
                    served::<P, N>(next, lines.drop_first(), between, end, written, result)
                } else {
                    end == next && written == between && result == step
                }
            }
    }
}

impl<N> Session<N> {
    /// A session that waits for the handshake.
    pub fn new(node: N) -> (session: Session<N>)
        ensures
            session == (Session { node, identity: None }),
    {
        Session { node, identity: None }
    }

    /// Takes one line of input and does what it asks for.
    pub fn feed<P: Payload>(&mut self, line: &str, output: &mut Output) -> (result: Result<
        (),
        Error,
    >) where N: Node<P>
        ensures
            fed::<P, N>(*old(self), line@, old(output)@, *final(self), final(output)@, result),
    {
        if self.identity.is_none() {
            match P::handle_init(Some(line), output) {
                Ok(identity) => {
                    self.identity = Some(identity);
                    Ok(())
                },
                Err(e) => Err(e),
            }
        } else {
            match Message::<P>::decode(line) {
                Ok(message) => self.node.handle(message, output),
                Err(e) => Err(e),
            }
        }
    }

    /// Takes the end of the input.
    pub fn finish(&self) -> (result: Result<(), Error>)
        ensures
            result == finished(*self),
    {
        if self.identity.is_none() {
            Err(Error::HandshakeMissing)
        } else {
            Ok(())
        }
    }
}

/// Runs a node over all the lines of its input, and writes what it answers.
///
/// The first line is the handshake; every further line is decoded and handed
/// to `node`, one after the other. The run ends well at the end of the input
/// and with the fault at the first line that fails; what was written until
/// then stays written.
pub fn serve<P: Payload, N: Node<P>>(node: N, input: &Vec<String>, output: &mut Output) -> (result:
    Result<(), Error>)
    ensures
        exists|end: Session<N>|
            served::<P, N>(
                Session { node, identity: None },
                texts_view(input@),
                old(output)@,
                end,
                final(output)@,
                result,
            ),
{
    let mut session = Session::new(node);
    let ghost start = session;
    let ghost lines = texts_view(input@);
    let ghost begun = output@;
    let mut i: usize = 0;
    assert(lines.skip(0) =~= lines);
    while i < input.len()
        invariant
            i <= input.len(),
            lines == texts_view(input@),
            start == (Session { node, identity: None }),
            begun == old(output)@,
            forall|end: Session<N>, written: Seq<Seq<char>>, result: Result<(), Error>|
                #[trigger] served::<P, N>(
                    session,
                    lines.skip(i as int),
                    output@,
                    end,
                    written,
                    result,
                ) ==> served::<P, N>(start, lines, begun, end, written, result),
        decreases input.len() - i,
    {
        let ghost before = session;
        let ghost so_far = output@;
        let ghost rest = lines.skip(i as int);
        let step = session.feed::<P>(input[i].as_str(), output);
        proof {
            assert(rest[0] == input@[i as int]@);
            assert(rest.drop_first() =~= lines.skip(i + 1));
            assert(fed::<P, N>(before, rest[0], so_far, session, output@, step));
        }
        match step {
            Ok(()) => {
                proof {
                    assert forall|
                        end: Session<N>,
                        written: Seq<Seq<char>>,
                        result: Result<(), Error>,
                    |
                        #[trigger] served::<P, N>(
                            session,
                            lines.skip(i + 1),
                            output@,
                            end,
                            written,
                            result,
                        ) implies served::<P, N>(start, lines, begun, end, written, result) by {
                        assert(served::<P, N>(before, rest, so_far, end, written, result));
                    }
                }
            },
            Err(e) => {
                proof {
                    assert(served::<P, N>(before, rest, so_far, session, output@, step));
                }
                return Err(e);
            },
        }
        i += 1;
    }
    proof {
        assert(lines.skip(i as int).len() == 0);
        assert(served::<P, N>(
            session,
            lines.skip(i as int),
            output@,
            session,
            output@,
            finished(session),
        ));
    }
    session.finish()
}

/// A run never changes what was written before it.
pub proof fn lemma_served_extends<P: Payload, N: Node<P>>(
    start: Session<N>,
    lines: Seq<Seq<char>>,
    output: Seq<Seq<char>>,
    end: Session<N>,
    written: Seq<Seq<char>>,
    result: Result<(), Error>,
)
    requires
        served::<P, N>(start, lines, output, end, written, result),
    ensures
        output.is_prefix_of(written),
    decreases lines.len(),
{
    if lines.len() > 0 {
        let (next, between, step) = choose|
            next: Session<N>,
            between: Seq<Seq<char>>,
            step: Result<(), Error>,
        |
            {
                &&& #[trigger] fed::<P, N>(start, lines[0], output, next, between, step)
                &&& if step is Ok {
                    served::<P, N>(next, lines.drop_first(), between, end, written, result)
                } else {
                    end == next && written == between && result == step
                }
            };
        assert(output.is_prefix_of(between));
        if step is Ok {
            lemma_served_extends::<P, N>(next, lines.drop_first(), between, end, written, result);
        }
    }
}

/// After the handshake, a line that does not decode ends the run at once:
/// with the fault, with nothing more written, the handler not asked and the
/// lines behind it unread.
pub proof fn lemma_malformed_line_ends_run<P: Payload, N: Node<P>>(
    start: Session<N>,
    lines: Seq<Seq<char>>,
    output: Seq<Seq<char>>,
    end: Session<N>,
    written: Seq<Seq<char>>,
    result: Result<(), Error>,
)
    requires
        served::<P, N>(start, lines, output, end, written, result),
        start.identity is Some,
        lines.len() > 0,
        decoded_line::<P>(lines[0]) is Err,
    ensures
        result == Err::<(), Error>(Error::MalformedMessage),
        written == output,
        end.node == start.node,
        end.identity == start.identity,
{
}

/// The acknowledgement of the handshake is written first, and it is settled
/// by the first line alone: whatever lines follow, and however the run ends,
/// it stands right behind what was written before the run.
pub proof fn lemma_handshake_reply_first<P: Payload, N: Node<P>>(
    node: N,
    lines: Seq<Seq<char>>,
    output: Seq<Seq<char>>,
    end: Session<N>,
    written: Seq<Seq<char>>,
    result: Result<(), Error>,
)
    requires
        served::<P, N>(Session { node, identity: None }, lines, output, end, written, result),
        lines.len() > 0,
        handshake_of(lines[0]) is Ok,
    ensures
        output.len() < written.len(),
        written.subrange(0, output.len() as int) == output,
        written[output.len() as int] == line_of::<Init>(handshake_of(lines[0])->Ok_0.reply),
{
    let start = Session { node, identity: None };
    let (next, between, step) = choose|
        next: Session<N>,
        between: Seq<Seq<char>>,
        step: Result<(), Error>,
    |
        {
            &&& #[trigger] fed::<P, N>(start, lines[0], output, next, between, step)
            &&& if step is Ok {
                served::<P, N>(next, lines.drop_first(), between, end, written, result)
            } else {
                end == next && written == between && result == step
            }
        };
    lemma_served_extends::<P, N>(next, lines.drop_first(), between, end, written, result);
    assert(between[output.len() as int] == written[output.len() as int]);
    assert(written.subrange(0, output.len() as int) =~= output);
}

} // verus!
