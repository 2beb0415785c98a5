use vstd::prelude::*;

verus! {

/// Errors of the codec and of the proxy's connections.
#[derive(Debug, Clone, PartialEq, Eq)]
pub enum ZkError {
    /// A socket failed; the text describes the failure.
    SocketError(String),
    /// A length field announced more bytes than the packet holds.
    InvalidPacketLength(i32),
    /// A string field did not hold valid UTF-8.
    InvalidString,
    /// A packet could not be encoded.
    EncodeError,
    /// A packet could not be decoded.
    DecodeError,
}

} // verus!
