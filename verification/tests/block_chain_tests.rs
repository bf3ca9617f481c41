use cargosos_bitcoin::block_structure::block::Block;
use cargosos_bitcoin::block_structure::block_chain::BlockChain;
use cargosos_bitcoin::block_structure::block_header::BlockHeader;
use cargosos_bitcoin::block_structure::block_version::BlockVersion;
use cargosos_bitcoin::block_structure::compact256::Compact256;
use cargosos_bitcoin::block_structure::hash::hash256d;
use cargosos_bitcoin::block_structure::outpoint::Outpoint;
use cargosos_bitcoin::block_structure::transaction::Transaction;
use cargosos_bitcoin::block_structure::transaction_input::TransactionInput;
use cargosos_bitcoin::block_structure::transaction_output::TransactionOutput;
use cargosos_bitcoin::messages::compact_size::CompactSize;
use cargosos_bitcoin::serialization::serializable_internal_order::SerializableInternalOrder;

#[test]
fn test_01_correct_append_header() {
    let block = Block::new(BlockHeader::new(
        BlockVersion::version(1),
        [0; 32],
        [0; 32],
        0,
        Compact256::from(10),
        0,
        CompactSize::new(0),
    ));

    let hash_of_first_block_header = block.header.get_hash256d().unwrap();

    let mut blockchain = BlockChain::new(block).unwrap();

    let header_to_append = BlockHeader::new(
        BlockVersion::version(1),
        hash_of_first_block_header.clone(),
        [0; 32],
        0,
        Compact256::from(10),
        0,
        CompactSize::new(0),
    );

    blockchain.append_header(header_to_append.clone()).unwrap();
    assert_eq!(blockchain.blocks[1].block.header, header_to_append);
}

#[test]
fn test_02_correct_block_update() {
    let transaction_input = TransactionInput::new(
        Outpoint { hash: [1; 32], index: 23 },
        String::from("Prueba in").into_bytes(),
        24,
    );

    let transaction_output = TransactionOutput {
        value: 10,
        pk_script: String::from("Prueba out").into_bytes(),
    };

    let transaction = Transaction {
        version: 1,
        tx_in: vec![transaction_input.clone()],
        tx_out: vec![transaction_output.clone()],
        time: 0,
    };

    let empty_block = Block::new(BlockHeader::new(
        BlockVersion::version(1),
        [0; 32],
        [0; 32],
        0,
        Compact256::from(10),
        0,
        CompactSize::new(0),
    ));

    let mut block_with_transactions = empty_block.clone();
    block_with_transactions
        .append_transaction(transaction.clone())
        .unwrap();

    let mut blockchain = BlockChain::new(empty_block).unwrap();

    blockchain.update_block(block_with_transactions).unwrap();

    assert_eq!(blockchain.blocks[0].block.transactions[0], transaction);
}

#[test]
fn test_03_correct_get_block_after_timestamp() {
    let block = Block::new(BlockHeader::new(
        BlockVersion::version(1),
        [0; 32],
        [0; 32],
        0,
        Compact256::from(10),
        0,
        CompactSize::new(0),
    ));

    let hash_of_first_block_header = block.header.get_hash256d().unwrap();

    let mut blockchain = BlockChain::new(block).unwrap();

    let header_to_append = BlockHeader::new(
        BlockVersion::version(1),
        hash_of_first_block_header.clone(),
        [3; 32],
        5,
        Compact256::from(10),
        21,
        CompactSize::new(0),
    );

    blockchain.append_header(header_to_append.clone()).unwrap();

    let block_after_timestamp = blockchain.get_blocks_after_timestamp(3).unwrap();
    assert_eq!(block_after_timestamp[0].header, header_to_append);
}

#[test]
fn test_04_correct_get_latest() {
    let block = Block::new(BlockHeader::new(
        BlockVersion::version(1),
        [0; 32],
        [0; 32],
        0,
        Compact256::from(10),
        0,
        CompactSize::new(0),
    ));

    let hash_of_first_block_header = block.header.get_hash256d().unwrap();

    let mut blockchain = BlockChain::new(block).unwrap();

    let header_to_append = BlockHeader::new(
        BlockVersion::version(1),
        hash_of_first_block_header.clone(),
        [3; 32],
        5,
        Compact256::from(10),
        21,
        CompactSize::new(0),
    );

    blockchain.append_header(header_to_append.clone()).unwrap();

    let last_blocks = blockchain.latest();
    assert_eq!(last_blocks[0].header, header_to_append);
}

#[test]
fn test_05_correct_get_utxo() {
    let transaction_output_1 = TransactionOutput {
        value: 10,
        pk_script: String::from("Prueba out").into_bytes(),
    };

    let transaction_output_2 = TransactionOutput {
        value: 20,
        pk_script: String::from("Prueba out").into_bytes(),
    };

    let transaction_output = Transaction {
        version: 1,
        tx_in: vec![],
        tx_out: vec![transaction_output_1.clone(), transaction_output_2.clone()],
        time: 0,
    };

    let mut serialized_transaction = Vec::new();
    transaction_output
        .io_serialize(&mut serialized_transaction)
        .unwrap();
    let hashed_transaction = hash256d(&serialized_transaction).unwrap();

    let mut block_transaction_output = Block::new(BlockHeader::new(
        BlockVersion::version(1),
        [0; 32],
        [0; 32],
        0,
        Compact256::from(10),
        0,
        CompactSize::new(0),
    ));

    block_transaction_output
        .append_transaction(transaction_output)
        .unwrap();

    let transaction_input_1 = TransactionInput::new(
        Outpoint { hash: hashed_transaction, index: 0 },
        String::from("Prueba in").into_bytes(),
        24,
    );

    let transaction_input = Transaction {
        version: 1,
        tx_in: vec![transaction_input_1.clone()],
        tx_out: vec![],
        time: 0,
    };

    let hash_block_transaction_output = block_transaction_output.header.get_hash256d().unwrap();

    let mut block_transaction_input = Block::new(BlockHeader::new(
        BlockVersion::version(1),
        hash_block_transaction_output,
        [0; 32],
        0,
        Compact256::from(10),
        0,
        CompactSize::new(0),
    ));

    block_transaction_input
        .append_transaction(transaction_input)
        .unwrap();

    let mut blockchain = BlockChain::new(block_transaction_output).unwrap();
    blockchain.append_block(block_transaction_input).unwrap();

    let utxo = blockchain.get_utxo();
    assert_eq!(utxo[0], transaction_output_2);
}
