use vstd::prelude::*;

verus! {

/// Errors raised while speaking to a peer.
#[derive(Debug, Clone, PartialEq, Eq)]
pub enum ErrorNode {
    /// A message could not be sent.
    WhileSendingMessage(String),
    /// A header or block failed validation.
    WhileValidating(String),
    /// A message could not be received.
    WhileReceivingMessage(String),
    /// A value could not be encoded.
    WhileSerializing(String),
    /// Received bytes do not form a value.
    WhileDeserializing(String),
    /// The peer stopped answering.
    NodeNotResponding(String),
    /// The peer's greeting was refused: wrong magic or a protocol version
    /// under the floor.
    HandshakeRejected(String),
    /// More entries were asked for than one request may carry.
    RequestedDataTooBig,
}

} // verus!
