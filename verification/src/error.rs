//! The ways in which a node ends with a failure.

use vstd::prelude::*;

verus! {

/// Why a node stopped. Every one of these ends the process.
#[derive(Clone, Copy, Debug, PartialEq, Eq, Structural)]
pub enum Error {
    /// A line is not JSON, lacks a field that an envelope needs, or names a
    /// payload that is not known.
    MalformedMessage,
    /// The input ended before any line arrived.
    HandshakeMissing,
    /// The first message is an envelope, but not the initialization request.
    HandshakeProtocolViolation,
    /// A message to be sent has no text form.
    Unencodable,
    /// The node has no message identifier left that it has not used.
    IdsExhausted,
}

impl Error {
    /// A sentence for the diagnostic stream.
    pub fn message(&self) -> (text: &'static str)
        ensures
            text@ == match *self {
                Error::MalformedMessage => "malformed message"@,
                Error::HandshakeMissing => "input ended before the init message"@,
                Error::HandshakeProtocolViolation => "first message is not an init message"@,
                Error::Unencodable => "message has no text form"@,
                Error::IdsExhausted => "message identifiers exhausted"@,
            },
    {
        match self {
            Error::MalformedMessage => "malformed message",
            Error::HandshakeMissing => "input ended before the init message",
            Error::HandshakeProtocolViolation => "first message is not an init message",
            Error::Unencodable => "message has no text form",
            Error::IdsExhausted => "message identifiers exhausted",
        }
    }
}

} // verus!
