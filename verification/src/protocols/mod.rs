//! Protocol messages and clients: HTTP, JDBC, JMS, WebSocket and Kafka.
use vstd::prelude::*;

pub mod http;
pub mod jdbc;
pub mod jms;
pub mod ws;
pub mod kafka;

verus! {

/// A protocol operation that failed, with its message.
#[derive(Debug)]
pub struct ProtocolError {
    pub message: String,
}

/// The error `message`.
pub open spec fn protocol_error(r: ProtocolError, message: Seq<char>) -> bool {
    r.message@ == message
}

/// A failed operation carrying `message`.
pub fn fail_with(message: &str) -> (r: ProtocolError)
    ensures
        r.message@ == message@,
{
    ProtocolError { message: crate::text::owned(message) }
}

} // verus!
