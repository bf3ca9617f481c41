use cargosos_bitcoin::block_structure::block::Block;
use cargosos_bitcoin::block_structure::block_header::BlockHeader;
use cargosos_bitcoin::block_structure::block_version::BlockVersion;
use cargosos_bitcoin::block_structure::compact256::Compact256;
use cargosos_bitcoin::block_structure::hash::hash256d;
use cargosos_bitcoin::block_structure::merkle_tree::MerkleTree;
use cargosos_bitcoin::block_structure::transaction::Transaction;
use cargosos_bitcoin::block_structure::transaction_output::TransactionOutput;
use cargosos_bitcoin::messages::compact_size::CompactSize;
use cargosos_bitcoin::serialization::deserializable_internal_order::DeserializableInternalOrder;
use cargosos_bitcoin::serialization::serializable_internal_order::SerializableInternalOrder;

#[test]
fn header_serializes_to_eighty_bytes_and_reads_back() {
    let header = BlockHeader::new(
        BlockVersion::version(2),
        [5; 32],
        [6; 32],
        123456,
        Compact256::from(0x1d00ffff),
        42,
        CompactSize::new(0),
    );
    let mut bytes: Vec<u8> = Vec::new();
    header.io_serialize(&mut bytes).unwrap();
    assert_eq!(bytes.len(), 80);

    let mut identity: Vec<u8> = Vec::new();
    identity.extend_from_slice(&bytes[..80]);
    let expected = hash256d(&identity).unwrap();
    assert_eq!(header.get_hash256d().unwrap(), expected);

    let mut cursor: &[u8] = &bytes;
    let read_back = BlockHeader::io_deserialize(&mut cursor).unwrap();
    assert!(cursor.is_empty());
    assert_eq!(read_back, header);
}

#[test]
fn genesis_header_has_known_identity() {
    let genesis = BlockHeader::generate_genesis_block_header();
    let mut bytes: Vec<u8> = Vec::new();
    genesis.io_serialize(&mut bytes).unwrap();
    assert_eq!(bytes.len(), 80);
    assert!(genesis.get_hash256d().is_ok());
}

#[test]
fn merkle_root_of_single_transaction_is_its_txid() {
    let transaction = Transaction {
        version: 1,
        tx_in: vec![],
        tx_out: vec![TransactionOutput { value: 1, pk_script: vec![] }],
        time: 0,
    };
    let txid = transaction.get_tx_id().unwrap();
    let tree = MerkleTree::new(&vec![transaction.clone()]).unwrap();
    assert_eq!(tree.root, txid);

    let mut block = Block::new(BlockHeader::new(
        BlockVersion::version(1),
        [0; 32],
        txid,
        0,
        Compact256::from(10),
        0,
        CompactSize::new(1),
    ));
    block.append_transaction(transaction).unwrap();
    assert!(block.proof_of_inclusion());
}

#[test]
fn merkle_root_duplicates_odd_leaf() {
    let first = Transaction { version: 1, tx_in: vec![], tx_out: vec![], time: 1 };
    let second = Transaction { version: 1, tx_in: vec![], tx_out: vec![], time: 2 };
    let third = Transaction { version: 1, tx_in: vec![], tx_out: vec![], time: 3 };

    let id1 = first.get_tx_id().unwrap();
    let id2 = second.get_tx_id().unwrap();
    let id3 = third.get_tx_id().unwrap();

    let mut pair_a: Vec<u8> = Vec::new();
    pair_a.extend_from_slice(&id1);
    pair_a.extend_from_slice(&id2);
    let hash_a = hash256d(&pair_a).unwrap();

    let mut pair_b: Vec<u8> = Vec::new();
    pair_b.extend_from_slice(&id3);
    pair_b.extend_from_slice(&id3);
    let hash_b = hash256d(&pair_b).unwrap();

    let mut top: Vec<u8> = Vec::new();
    top.extend_from_slice(&hash_a);
    top.extend_from_slice(&hash_b);
    let expected_root = hash256d(&top).unwrap();

    let tree = MerkleTree::new(&vec![first, second, third]).unwrap();
    assert_eq!(tree.root, expected_root);
}

#[test]
fn deserialize_refuses_short_header_bytes() {
    let bytes: Vec<u8> = vec![1, 0, 0, 0];
    let mut cursor: &[u8] = &bytes;
    assert!(BlockHeader::io_deserialize(&mut cursor).is_err());
    assert_eq!(cursor.len(), 4);
}
