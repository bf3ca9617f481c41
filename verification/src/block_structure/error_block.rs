use vstd::prelude::*;

verus! {

/// Errors raised by block and chain operations.
#[derive(Debug, Clone, PartialEq, Eq)]
pub enum ErrorBlock {
    /// The block links to no known node of the chain.
    CouldNotAppendBlock,
    /// The transaction or block is already there.
    TransactionAlreadyInBlock,
    /// No node of the chain holds the block to replace.
    CouldNotUpdate,
    /// A parent index pointed outside the chain.
    NodeChainReferenceNotFound,
    /// No block was old enough.
    CouldNotFindBlockFarEnough,
    /// Hashing the serialized bytes failed.
    CouldNotHash,
    /// The transaction identifier could not be computed.
    CouldNotGetTxId,
    /// The transaction identifier could not be written out.
    CouldNotWriteTxId,
}

} // verus!
