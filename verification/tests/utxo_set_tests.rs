use cargosos_bitcoin::block_structure::block::Block;
use cargosos_bitcoin::block_structure::block_header::BlockHeader;
use cargosos_bitcoin::block_structure::block_version::BlockVersion;
use cargosos_bitcoin::block_structure::compact256::Compact256;
use cargosos_bitcoin::block_structure::hash::hash256d;
use cargosos_bitcoin::block_structure::outpoint::Outpoint;
use cargosos_bitcoin::block_structure::transaction::Transaction;
use cargosos_bitcoin::block_structure::transaction_input::TransactionInput;
use cargosos_bitcoin::block_structure::transaction_output::TransactionOutput;
use cargosos_bitcoin::block_structure::utxo_set::UTXOSet;
use cargosos_bitcoin::messages::compact_size::CompactSize;
use cargosos_bitcoin::serialization::serializable_internal_order::SerializableInternalOrder;
use cargosos_bitcoin::block_structure::block_chain::BlockChain;
use cargosos_bitcoin::block_structure::error_block::ErrorBlock;

fn header() -> BlockHeader {
    BlockHeader::new(
        BlockVersion::version(1),
        [0; 32],
        [0; 32],
        0,
        Compact256::from(10),
        0,
        CompactSize::new(0),
    )
}

#[test]
fn applying_a_block_inserts_outputs_and_removes_spent_outpoints() {
    let coin = Transaction {
        version: 1,
        tx_in: vec![],
        tx_out: vec![TransactionOutput { value: 7, pk_script: vec![1, 2] }],
        time: 0,
    };
    let mut bytes = Vec::new();
    coin.io_serialize(&mut bytes).unwrap();
    let txid = hash256d(&bytes).unwrap();

    let mut block = Block::new(header());
    block.append_transaction(coin).unwrap();

    let mut set = UTXOSet::new();
    set.update_utxo_with_block(&block).unwrap();

    let created = Outpoint::new(txid, 0);
    let found = set.get_output(&created).unwrap();
    assert_eq!(found.value, 7);
    assert_eq!(found.pk_script, vec![1, 2]);

    let spender = Transaction {
        version: 1,
        tx_in: vec![TransactionInput::new(created, vec![], 0xFFFF_FFFF)],
        tx_out: vec![],
        time: 0,
    };
    let mut spend_block = Block::new(header());
    spend_block.append_transaction(spender).unwrap();
    set.update_utxo_with_block(&spend_block).unwrap();

    assert!(set.get_output(&created).is_none());
}

#[test]
fn pending_transactions_leave_once_confirmed() {
    let transaction = Transaction {
        version: 1,
        tx_in: vec![],
        tx_out: vec![TransactionOutput { value: 7, pk_script: vec![1, 2] }],
        time: 0,
    };

    let mut set = UTXOSet::new();
    assert!(!set.is_transaction_pending(&transaction));
    set.append_pending_transaction(transaction.clone());
    assert!(set.is_transaction_pending(&transaction));

    let mut block = Block::new(header());
    block.append_transaction(transaction.clone()).unwrap();
    set.remove_pending_in_block(&block);
    assert!(!set.is_transaction_pending(&transaction));
}

#[test]
fn appending_the_same_block_twice_is_refused() {

    let genesis = Block::new(header());
    let genesis_hash = genesis.header.get_hash256d().unwrap();
    let mut chain = BlockChain::new(genesis).unwrap();

    let child = Block::new(BlockHeader::new(
        BlockVersion::version(1),
        genesis_hash,
        [0; 32],
        9,
        Compact256::from(10),
        0,
        CompactSize::new(0),
    ));
    chain.append_block(child.clone()).unwrap();
    let blocks_after_first = chain.blocks.len();
    let tips_after_first = chain.last_blocks.clone();

    let second = chain.append_block(child);
    assert_eq!(second, Err(ErrorBlock::TransactionAlreadyInBlock));
    assert_eq!(chain.blocks.len(), blocks_after_first);
    assert_eq!(chain.last_blocks, tips_after_first);
}

#[test]
fn unknown_parent_is_refused() {

    let genesis = Block::new(header());
    let mut chain = BlockChain::new(genesis).unwrap();
    let stranger = Block::new(BlockHeader::new(
        BlockVersion::version(1),
        [7; 32],
        [0; 32],
        9,
        Compact256::from(10),
        0,
        CompactSize::new(0),
    ));
    assert_eq!(chain.append_block(stranger), Err(ErrorBlock::CouldNotAppendBlock));
    assert_eq!(chain.blocks.len(), 1);
}
