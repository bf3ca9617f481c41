use vstd::prelude::*;

use crate::block_structure::block::Block;
use crate::block_structure::transaction::Transaction;
use crate::wallet_structure::account::Account;

verus! {

/// What the node tells its front ends.
#[derive(Debug)]
pub enum Notification {
    AttemptingHandshakeWithPeer(Vec<u8>),
    SuccessfulHandshakeWithPeer(Vec<u8>),
    FailedHandshakeWithPeer(Vec<u8>),
    HeadersReceived(u32),
    ProgressDownloadingBlocks(u32, u32),
    ProgressUpdatingBlockchain(u32, u32),
    NewBlockAddedToTheBlockchain(Block),
    TransactionOfAccountReceived(Vec<Account>, Transaction),
    TransactionOfAccountInNewBlock(Block, Transaction),
    RegisterWalletAccount(Account),
    UpdatedSelectedAccount(Account),
    LoadAvailableBalance(Account, i64, i64),
    NotEnoughFunds,
    InvalidAddressEnter,
    InvalidPublicKeyEnter,
    InvalidPrivateKeyEnter,
    AccountCreationFail,
    SuccessfullySentTransaction(Transaction),
    NotifyBlockchainIsReady,
    ClosingPeers,
    ClosingPeer,
}

} // verus!
