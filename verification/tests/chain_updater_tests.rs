use cargosos_bitcoin::block_structure::block::Block;
use cargosos_bitcoin::block_structure::block_chain::BlockChain;
use cargosos_bitcoin::block_structure::block_header::BlockHeader;
use cargosos_bitcoin::block_structure::block_version::BlockVersion;
use cargosos_bitcoin::block_structure::compact256::Compact256;
use cargosos_bitcoin::block_structure::transaction::Transaction;
use cargosos_bitcoin::block_structure::transaction_output::TransactionOutput;
use cargosos_bitcoin::block_structure::utxo_set::UTXOSet;
use cargosos_bitcoin::messages::compact_size::CompactSize;
use cargosos_bitcoin::node_structure::chain_updater::{
    receive_transaction, update_chain_with_blocks,
};
use cargosos_bitcoin::wallet_structure::account::Account;
use cargosos_bitcoin::wallet_structure::address::Address;
use cargosos_bitcoin::wallet_structure::private_key::PrivateKey;
use cargosos_bitcoin::wallet_structure::public_key::PublicKey;

fn test_account() -> Account {
    let private_key_bytes: [u8; 32] = [
        0x0a, 0x52, 0x65, 0x08, 0x2e, 0x24, 0x11, 0x5f, 0x77, 0x54, 0x0a, 0xb3, 0xb8, 0xc2, 0xb9,
        0x20, 0x60, 0xaa, 0x30, 0xd6, 0xd2, 0xb8, 0x1a, 0x08, 0x5d, 0x71, 0xab, 0x37, 0xed, 0xa7,
        0x68, 0x91,
    ];
    let private_key = PrivateKey::new(&private_key_bytes).unwrap();
    let public_key_bytes = private_key.derive_public_key();
    let public_key = PublicKey::new(&public_key_bytes);
    let address = Address::from_public_key(&public_key).unwrap();
    Account { account_name: "test".to_string(), private_key, public_key, address }
}

fn header(previous: [u8; 32], time: u32, nonce: u32) -> BlockHeader {
    BlockHeader::new(
        BlockVersion::version(1),
        previous,
        [7; 32],
        time,
        Compact256::from(0x23000001),
        nonce,
        CompactSize::new(0),
    )
}

#[test]
fn owned_transaction_joins_pending_once() {
    let account = test_account();
    let mut utxo_set = UTXOSet::new();
    let transaction = Transaction {
        version: 1,
        tx_in: vec![],
        tx_out: vec![TransactionOutput {
            value: 900,
            pk_script: account.address.generate_script_pubkey_p2pkh(),
        }],
        time: 5,
    };

    let owners = receive_transaction(&mut utxo_set, &vec![account], transaction.clone());
    assert_eq!(owners, vec![0]);
    assert_eq!(utxo_set.pending_transactions.len(), 1);

    // offered again it is a pending duplicate: dropped, nobody notified
    let again = receive_transaction(&mut utxo_set, &vec![test_account()], transaction);
    assert!(again.is_empty());
    assert_eq!(utxo_set.pending_transactions.len(), 1);
}

#[test]
fn foreign_transaction_is_ignored() {
    let mut utxo_set = UTXOSet::new();
    let transaction = Transaction {
        version: 1,
        tx_in: vec![],
        tx_out: vec![TransactionOutput { value: 900, pk_script: vec![1, 2, 3] }],
        time: 5,
    };
    let owners = receive_transaction(&mut utxo_set, &vec![test_account()], transaction);
    assert!(owners.is_empty());
    assert_eq!(utxo_set.pending_transactions.len(), 0);
}

#[test]
fn known_blocks_are_promoted_and_unknown_ones_dropped() {
    let genesis = Block::new(BlockHeader::generate_genesis_block_header());
    let genesis_hash = genesis.header.get_hash256d().unwrap();
    let mut chain = BlockChain::new(genesis).unwrap();
    let next_header = header(genesis_hash, 100, 1);
    chain.append_header(next_header).unwrap();

    let mut full = Block::new(next_header);
    full.append_transaction(Transaction {
        version: 1,
        tx_in: vec![],
        tx_out: vec![TransactionOutput { value: 4, pk_script: vec![9] }],
        time: 0,
    })
    .unwrap();
    let stranger = Block::new(header([3; 32], 100, 2));

    let mut utxo_set = UTXOSet::new();
    let promoted = update_chain_with_blocks(&mut chain, &mut utxo_set, &vec![
        full.clone(),
        stranger,
    ]);
    assert_eq!(promoted, 1);
    assert_eq!(chain.blocks[1].block.transactions.len(), 1);
    assert_eq!(utxo_set.utxo.len(), 1);
}

#[test]
fn canonical_tip_takes_the_deepest_fork() {
    let genesis = Block::new(BlockHeader::generate_genesis_block_header());
    let genesis_hash = genesis.header.get_hash256d().unwrap();
    let mut chain = BlockChain::new(genesis).unwrap();

    // one fork of a single header, one of two
    let short_fork = header(genesis_hash, 100, 1);
    chain.append_header(short_fork).unwrap();
    let long_first = header(genesis_hash, 100, 2);
    chain.append_header(long_first).unwrap();
    let long_first_hash = Block::new(long_first).header.get_hash256d().unwrap();
    let long_second = header(long_first_hash, 101, 3);
    chain.append_header(long_second).unwrap();

    assert_eq!(chain.last_blocks.len(), 2);
    let tip = chain.canonical_tip().unwrap();
    assert_eq!(tip, 3);
    assert_eq!(chain.depth_of(tip), 3);
}
