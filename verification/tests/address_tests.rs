use cargosos_bitcoin::block_structure::transaction::Transaction;
use cargosos_bitcoin::serialization::deserializable_internal_order::DeserializableInternalOrder;
use cargosos_bitcoin::wallet_structure::address::Address;
use cargosos_bitcoin::wallet_structure::public_key::PublicKey;
use cargosos_bitcoin::serialization::serializable_internal_order::SerializableInternalOrder;
use cargosos_bitcoin::block_structure::transaction_output::TransactionOutput;

#[test]
fn test_01_correct_address_creation() {
    let address = "1PMycacnJaSqwwJqjawXBErnLsZ7RkXUAs".to_string();
    let address_bytes = [
        0x00, 0xf5, 0x4a, 0x58, 0x51, 0xe9, 0x37, 0x2b, 0x87, 0x81, 0x0a, 0x8e, 0x60, 0xcd, 0xd2,
        0xe7, 0xcf, 0xd8, 0x0b, 0x6e, 0x31, 0xc7, 0xf1, 0x8f, 0xe8,
    ];
    let address = Address::new(&address).unwrap();
    assert!(address.address_string == "1PMycacnJaSqwwJqjawXBErnLsZ7RkXUAs");
    assert!(address.address_bytes == address_bytes);
}

#[test]
fn test_02_correct_extraction_of_hashed_pk() {
    let address = "1PMycacnJaSqwwJqjawXBErnLsZ7RkXUAs".to_string();
    let hashed_pk: [u8; 20] = [
        0xf5, 0x4a, 0x58, 0x51, 0xe9, 0x37, 0x2b, 0x87, 0x81, 0x0a, 0x8e, 0x60, 0xcd, 0xd2, 0xe7,
        0xcf, 0xd8, 0x0b, 0x6e, 0x31,
    ];
    let address = Address::new(&address).unwrap();
    assert!(address.extract_hashed_pk() == hashed_pk);
}

#[test]
fn test_03_correct_address_creation_from_pubkey() {
    let pubkey_bytes: [u8; 33] = [
        0x03, 0xBC, 0x6D, 0x45, 0xD2, 0x10, 0x1E, 0x91, 0x28, 0xDE, 0x14, 0xB5, 0xB6, 0x68, 0x83,
        0xD6, 0x9C, 0xF1, 0xC3, 0x1A, 0x50, 0xB9, 0x6F, 0xEA, 0x2D, 0xAD, 0x4E, 0xD2, 0x35, 0x14,
        0x92, 0x4A, 0x22,
    ];
    let pubkey = PublicKey::new(&pubkey_bytes);
    let address = Address::from_public_key(&pubkey).unwrap();
    let actual_address = Address::new("mnQLoVaZ3w1NLVmUhfG8hh6WoG3iu7cnNw").unwrap();
    assert_eq!(address, actual_address);
}

#[test]
fn test_04_correct_verify_transaction_ownership() {
    let address = Address::new("mnQLoVaZ3w1NLVmUhfG8hh6WoG3iu7cnNw").unwrap();

    let transaction_bytes: Vec<u8> = vec![
        0x01, 0x00, 0x00, 0x00, 0x01, 0x20, 0x25, 0xEF, 0x69, 0x2C, 0xA9, 0x87, 0xB3, 0x9A, 0x81,
        0x33, 0x6E, 0xFB, 0x59, 0xB0, 0x56, 0xFB, 0x90, 0xC0, 0x3A, 0x5E, 0xA4, 0xC4, 0x54, 0x4C,
        0xF9, 0x27, 0x57, 0x61, 0x3E, 0x2E, 0xA4, 0x01, 0x00, 0x00, 0x00, 0x00, 0xFF, 0xFF, 0xFF,
        0xFF, 0x02, 0xA0, 0x86, 0x01, 0x00, 0x00, 0x00, 0x00, 0x00, 0x19, 0x76, 0xA9, 0x14, 0x7A,
        0xA8, 0x18, 0x46, 0x85, 0xCA, 0x1F, 0x06, 0xF5, 0x43, 0xB6, 0x4A, 0x50, 0x2E, 0xB3, 0xB6,
        0x13, 0x5D, 0x67, 0x20, 0x88, 0xAC, 0xD0, 0xE6, 0x43, 0x00, 0x00, 0x00, 0x00, 0x00, 0x19,
        0x76, 0xA9, 0x14, 0x4B, 0x88, 0xC1, 0xD3, 0x87, 0x49, 0x08, 0x36, 0x57, 0x73, 0xA7, 0x65,
        0xCD, 0xB0, 0x52, 0xC9, 0xEF, 0x5F, 0x1A, 0x80, 0x88, 0xAC, 0x98, 0xFB, 0x95, 0x64,
    ];
    let transaction = Transaction::io_deserialize(&mut transaction_bytes.as_slice()).unwrap();

    let transaction_output = transaction.tx_out[1].clone();

    assert!(address.verify_transaction_ownership(&transaction_output));
}

#[test]
fn transaction_round_trip_exact_bytes() {

    let transaction_bytes: Vec<u8> = vec![
        0x01, 0x00, 0x00, 0x00, 0x01, 0x20, 0x25, 0xEF, 0x69, 0x2C, 0xA9, 0x87, 0xB3, 0x9A, 0x81,
        0x33, 0x6E, 0xFB, 0x59, 0xB0, 0x56, 0xFB, 0x90, 0xC0, 0x3A, 0x5E, 0xA4, 0xC4, 0x54, 0x4C,
        0xF9, 0x27, 0x57, 0x61, 0x3E, 0x2E, 0xA4, 0x01, 0x00, 0x00, 0x00, 0x00, 0xFF, 0xFF, 0xFF,
        0xFF, 0x02, 0xA0, 0x86, 0x01, 0x00, 0x00, 0x00, 0x00, 0x00, 0x19, 0x76, 0xA9, 0x14, 0x7A,
        0xA8, 0x18, 0x46, 0x85, 0xCA, 0x1F, 0x06, 0xF5, 0x43, 0xB6, 0x4A, 0x50, 0x2E, 0xB3, 0xB6,
        0x13, 0x5D, 0x67, 0x20, 0x88, 0xAC, 0xD0, 0xE6, 0x43, 0x00, 0x00, 0x00, 0x00, 0x00, 0x19,
        0x76, 0xA9, 0x14, 0x4B, 0x88, 0xC1, 0xD3, 0x87, 0x49, 0x08, 0x36, 0x57, 0x73, 0xA7, 0x65,
        0xCD, 0xB0, 0x52, 0xC9, 0xEF, 0x5F, 0x1A, 0x80, 0x88, 0xAC, 0x98, 0xFB, 0x95, 0x64,
    ];
    let mut cursor: &[u8] = &transaction_bytes;
    let transaction = Transaction::io_deserialize(&mut cursor).unwrap();
    assert!(cursor.is_empty());
    assert_eq!(transaction.tx_in.len(), 1);
    assert_eq!(transaction.tx_out.len(), 2);
    assert_eq!(transaction.tx_out[0].value, 100000);
    assert_eq!(transaction.tx_out[1].value, 4450000);

    let mut reserialized: Vec<u8> = Vec::new();
    transaction.io_serialize(&mut reserialized).unwrap();
    assert_eq!(reserialized, transaction_bytes);
}

#[test]
fn ownership_rejects_other_p2pkh_addresses() {

    let owner = Address::new("mnQLoVaZ3w1NLVmUhfG8hh6WoG3iu7cnNw").unwrap();
    let other = Address::new("1PMycacnJaSqwwJqjawXBErnLsZ7RkXUAs").unwrap();
    let output = TransactionOutput {
        value: 4450000,
        pk_script: vec![
            0x76, 0xa9, 0x14, 0x4B, 0x88, 0xC1, 0xD3, 0x87, 0x49, 0x08, 0x36, 0x57, 0x73, 0xA7,
            0x65, 0xCD, 0xB0, 0x52, 0xC9, 0xEF, 0x5F, 0x1A, 0x80, 0x88, 0xac,
        ],
    };
    assert!(owner.verify_transaction_ownership(&output));
    assert!(!other.verify_transaction_ownership(&output));
}
