//! Failure taxonomy of the connection: read-path failures end the stream
//! after being yielded as its final item; send-path failures are local to
//! the failing call.

use vstd::prelude::*;

verus! {

/// Why the inbound stream failed.
#[derive(Debug)]
pub enum ISReadError {
    /// The transport failed; carries the I/O layer's message.
    IoError(String),
    /// No line arrived within the liveness window: the remote is presumed
    /// hung, and the stream ends.
    TcpReadTimeout,
    /// A server status line was not decodable as text; carries the line's
    /// bytes.
    ServerCommandInvalidUtf8(Vec<u8>),
}

/// Why a send failed. The connection is not assumed dead: only the failing
/// call is affected.
#[derive(Debug)]
pub enum ISSendError {
    /// The transport failed; carries the I/O layer's message.
    IoError(String),
    /// The outbound packet could not be serialized into a line; carries
    /// the external encoder's error.
    EncodeError(aprs_parser::EncodeError),
}

} // verus!
