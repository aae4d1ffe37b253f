//! The message value routed by the core.
//!
//! The core never inspects payload semantics; it only distinguishes the
//! close variant (which ends a connection) from every other variant.

use vstd::prelude::*;

verus! {

/// One frame of the underlying transport: a payload variant or a close
/// notice.  The core routes payload variants and treats the close variant
/// as the peer ending the connection.
pub enum Message {
    /// A text payload.
    Text(String),
    /// A binary payload.
    Binary(Vec<u8>),
    /// A keep-alive probe carrying an opaque payload.
    Ping(Vec<u8>),
    /// The answer to a keep-alive probe.
    Pong(Vec<u8>),
    /// The peer is closing the connection.
    Close,
}

impl Message {
    /// Whether this is the close variant.
    pub open spec fn spec_is_close(&self) -> bool {
        matches!(self, Message::Close)
    }

    /// Executable test for the close variant.
    pub fn is_close(&self) -> (r: bool)
        ensures
            r == self.spec_is_close(),
    {
        matches!(self, Message::Close)
    }
}

} // verus!
