//! Connection lifecycle and message-routing core for an event-driven
//! bidirectional message server.
//!
//! The library models the decisions the server makes — which connections are
//! routed, what each frame on a reader half causes, what each outbound
//! message on a writer half causes, and when a connection is considered
//! disconnected — as verified state machines over plain values.  The
//! surrounding runtime (socket accept, handshake, task spawning, channels)
//! performs the I/O and feeds each observed event to these machines.

pub mod bind;
pub mod message;
pub mod receive;
pub mod send;
pub mod server;
pub mod trace;
