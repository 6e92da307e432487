//! Errors of a session and of the delivery of a message.

use vstd::prelude::*;

verus! {

/// What can end a session or a delivery.
#[derive(Debug, Clone, PartialEq, Eq)]
pub enum RelayError {
    /// Reading from or writing to the connection failed, or the peer closed it.
    ConnectionIo,
    /// A command line could not be decoded.
    ProtocolParse,
    /// The text to deliver is blank.
    EmptyMessage,
    /// The chat endpoint answered piece `chunk` (counted from 1) with a non-success status.
    Delivery { chunk: usize, status: u16, body: String },
    /// The request for piece `chunk` (counted from 1) could not be made.
    Transport { chunk: usize },
}

} // verus!
