//! The error taxonomy of the protocol.  Every variant is local to one
//! connection: the host engine closes that connection with the reported
//! reason and nothing else is affected.

use vstd::prelude::*;

verus! {

/// Reason for closing one connection.
///
/// `PushEventTooLarge(limit, request)` reports a frame whose declared
/// payload length `request` exceeds the configured `limit`.
/// `SubStreamEof` reports a clean end-of-stream on an inbound channel,
/// which this protocol treats as peer-initiated shutdown.
/// `IoError` reports a read or write failure on the underlying stream,
/// including a malformed length prefix.
#[derive(Debug, Clone, PartialEq, Eq, Structural)]
pub enum PushError {
    NoError,
    PushEventTooLarge(usize, usize),
    SubStreamEof,
    IoError,
}

} // verus!
