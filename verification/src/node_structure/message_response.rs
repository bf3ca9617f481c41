use vstd::prelude::*;

use super::connection_id::ConnectionId;
use crate::block_structure::block::Block;
use crate::block_structure::transaction::Transaction;

verus! {

/// What a peer pushed at us: a block or a transaction, tagged with the
/// connection it came through.
#[derive(Debug)]
pub enum MessageResponse {
    Block(Block, ConnectionId),
    Transaction(Transaction, ConnectionId),
}

} // verus!
