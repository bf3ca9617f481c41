use cargosos_bitcoin::block_structure::block::Block;
use cargosos_bitcoin::block_structure::block_chain::BlockChain;
use cargosos_bitcoin::block_structure::block_header::BlockHeader;
use cargosos_bitcoin::block_structure::block_version::BlockVersion;
use cargosos_bitcoin::block_structure::compact256::Compact256;
use cargosos_bitcoin::block_structure::outpoint::Outpoint;
use cargosos_bitcoin::block_structure::transaction_output::TransactionOutput;
use cargosos_bitcoin::block_structure::utxo_set::UTXOSet;
use cargosos_bitcoin::messages::compact_size::CompactSize;
use cargosos_bitcoin::wallet_structure::account::Account;
use cargosos_bitcoin::wallet_structure::address::Address;
use cargosos_bitcoin::wallet_structure::private_key::PrivateKey;
use cargosos_bitcoin::wallet_structure::public_key::PublicKey;
use cargosos_bitcoin::wallet_structure::wallet::Wallet;

fn test_account() -> Account {
    let private_key_bytes: [u8; 32] = [
        0x0a, 0x52, 0x65, 0x08, 0x2e, 0x24, 0x11, 0x5f, 0x77, 0x54, 0x0a, 0xb3, 0xb8, 0xc2, 0xb9,
        0x20, 0x60, 0xaa, 0x30, 0xd6, 0xd2, 0xb8, 0x1a, 0x08, 0x5d, 0x71, 0xab, 0x37, 0xed, 0xa7,
        0x68, 0x91,
    ];
    let private_key = PrivateKey::new(&private_key_bytes).unwrap();
    let public_key_bytes = private_key.derive_public_key();
    let public_key = PublicKey::new(&public_key_bytes);
    let address = Address::from_public_key(&public_key).unwrap();
    Account { account_name: "test".to_string(), private_key, public_key, address }
}

fn two_block_chain() -> BlockChain {
    let genesis = Block::new(BlockHeader::generate_genesis_block_header());
    let genesis_hash = genesis.header.get_hash256d().unwrap();
    let mut chain = BlockChain::new(genesis).unwrap();
    let next = BlockHeader::new(
        BlockVersion::version(1),
        genesis_hash,
        [7; 32],
        2000000000,
        Compact256::from(0x23000001),
        9,
        CompactSize::new(0),
    );
    chain.append_header(next).unwrap();
    chain
}

#[test]
fn chain_blob_round_trips() {
    let chain = two_block_chain();
    let mut blob: Vec<u8> = Vec::new();
    chain.save_to_bytes(&mut blob).unwrap();

    let mut cursor: &[u8] = &blob;
    let loaded = BlockChain::load_from_bytes(&mut cursor).unwrap();
    assert!(cursor.is_empty());
    assert_eq!(loaded.blocks.len(), chain.blocks.len());
    assert_eq!(loaded.last_blocks, chain.last_blocks);
    for (a, b) in loaded.blocks.iter().zip(chain.blocks.iter()) {
        assert_eq!(a.block.header, b.block.header);
        assert_eq!(a.index_previous_node, b.index_previous_node);
        assert_eq!(a.header_hash, b.header_hash);
    }
}

#[test]
fn chain_blob_with_bad_root_is_refused() {
    let chain = two_block_chain();
    let mut blob: Vec<u8> = Vec::new();
    chain.save_to_bytes(&mut blob).unwrap();
    // point the root at a parent: byte after the 24-byte header and the
    // 80-byte genesis header plus its count byte holds the parent code
    let root_parent_at = 24 + 81;
    assert_eq!(blob[root_parent_at], 0xFF);
    blob[root_parent_at] = 0x00;
    let mut cursor: &[u8] = &blob;
    assert!(BlockChain::load_from_bytes(&mut cursor).is_err());
}

#[test]
fn wallet_blob_round_trips() {
    let mut wallet = Wallet::new();
    assert!(wallet.add_account(test_account()));
    let mut blob: Vec<u8> = Vec::new();
    wallet.save_to_bytes(&mut blob).unwrap();

    let mut cursor: &[u8] = &blob;
    let loaded = Wallet::load_from_bytes(&mut cursor).unwrap();
    assert!(cursor.is_empty());
    assert_eq!(loaded.accounts.len(), 1);
    assert_eq!(loaded.selected, Some(0));
    assert_eq!(loaded.accounts[0].account_name, "test");
    assert_eq!(loaded.accounts[0].private_key.key_bytes, test_account().private_key.key_bytes);
    assert_eq!(loaded.accounts[0].address.address_string, test_account().address.address_string);
}

#[test]
fn wallet_blob_with_corrupt_key_is_refused() {
    let mut wallet = Wallet::new();
    assert!(wallet.add_account(test_account()));
    let mut blob: Vec<u8> = Vec::new();
    wallet.save_to_bytes(&mut blob).unwrap();
    // flip a byte of the private key, right after the count and the name
    // record ("test": 1 length byte + 4 bytes)
    let key_at = 1 + 5;
    blob[key_at] ^= 0xFF;
    let mut cursor: &[u8] = &blob;
    assert!(Wallet::load_from_bytes(&mut cursor).is_err());
}

#[test]
fn coin_selection_prefers_larger_outputs() {
    let account = test_account();
    let mut utxo_set = UTXOSet::new();
    utxo_set.utxo.push((
        Outpoint::new([9; 32], 0),
        TransactionOutput {
            value: 1000,
            pk_script: account.address.generate_script_pubkey_p2pkh(),
        },
    ));
    utxo_set.utxo.push((
        Outpoint::new([9; 32], 1),
        TransactionOutput {
            value: 9000,
            pk_script: account.address.generate_script_pubkey_p2pkh(),
        },
    ));

    let to = Address::new("mnQLoVaZ3w1NLVmUhfG8hh6WoG3iu7cnNw").unwrap();
    let transaction = account.create_transaction(to, 3000, 1000, utxo_set).unwrap();
    // the 9000-satoshi output alone covers amount and fee; the descending
    // pass spends it and leaves the 1000-satoshi one alone
    assert_eq!(transaction.tx_in.len(), 1);
    assert_eq!(transaction.tx_in[0].previous_output, Outpoint::new([9; 32], 1));
}

#[test]
fn blocks_to_download_keeps_header_only_nodes() {
    let chain = two_block_chain();
    // the genesis block and the appended header are both transaction-less;
    // the cutoff keeps only the later one
    let to_download = chain.get_blocks_to_download(1500000000).unwrap();
    assert_eq!(to_download.len(), 1);
    assert_eq!(to_download[0].header.time, 2000000000);

    let everything = chain.get_blocks_to_download(0).unwrap();
    assert_eq!(everything.len(), 2);
}
