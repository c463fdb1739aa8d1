//! A small runtime for message-passing nodes that exchange one JSON envelope
//! per line of text.
//!
//! A node is given its identity by a handshake and then answers requests,
//! one line at a time. The runtime decodes the lines, hands the envelopes to
//! a [`Node`] and collects the lines that it writes; reading and writing the
//! streams themselves is left to the caller.

pub mod broadcast;
pub mod echo;
pub mod envelope;
pub mod error;
pub mod ids;
pub mod init;
pub mod json;
pub mod message;
pub mod node;
pub mod output;
pub mod payload;
pub mod runtime;
pub mod text;
pub mod wire;

pub use error::Error;
pub use init::{Init, NodeIdentity};
pub use message::{Body, Message};
pub use node::Node;
pub use output::Output;
pub use payload::{Codec, Payload};
pub use runtime::{serve, Session};
