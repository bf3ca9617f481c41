use cargosos_bitcoin::block_structure::outpoint::Outpoint;
use cargosos_bitcoin::block_structure::transaction_output::TransactionOutput;
use cargosos_bitcoin::block_structure::utxo_set::UTXOSet;
use cargosos_bitcoin::wallet_structure::account::Account;
use cargosos_bitcoin::wallet_structure::error_wallet::ErrorWallet;
use cargosos_bitcoin::wallet_structure::address::Address;
use cargosos_bitcoin::wallet_structure::private_key::PrivateKey;
use cargosos_bitcoin::wallet_structure::public_key::PublicKey;
use cargosos_bitcoin::wallet_structure::wallet::Wallet;

fn test_account() -> Account {
    let private_key_bytes: [u8; 32] = [
        0x0a, 0x52, 0x65, 0x08, 0x2e, 0x24, 0x11, 0x5f, 0x77, 0x54, 0x0a, 0xb3, 0xb8, 0xc2, 0xb9,
        0x20, 0x60, 0xaa, 0x30, 0xd6, 0xd2, 0xb8, 0x1a, 0x08, 0x5d, 0x71, 0xab, 0x37, 0xed, 0xa7,
        0x68, 0x91,
    ];
    let private_key = PrivateKey::new(&private_key_bytes).unwrap();
    let public_key_bytes = private_key.derive_public_key();
    let public_key = PublicKey::new(&public_key_bytes);
    let address = Address::from_public_key(&public_key).unwrap();
    Account {
        account_name: "test".to_string(),
        private_key,
        public_key,
        address,
    }
}

#[test]
fn signing_verifies_under_own_public_key() {
    let account = test_account();
    let digest: [u8; 32] = [7; 32];
    let signature = account.sign(&digest).unwrap();
    assert!(account.public_key.verify_signature(&digest, &signature));

    let other_digest: [u8; 32] = [8; 32];
    assert!(!account.public_key.verify_signature(&other_digest, &signature));
}

#[test]
fn insufficient_funds_returns_not_enough_funds() {
    let account = test_account();
    let mut utxo_set = UTXOSet::new();
    utxo_set.utxo.push((
        Outpoint::new([9; 32], 0),
        TransactionOutput {
            value: 5000,
            pk_script: account.address.generate_script_pubkey_p2pkh(),
        },
    ));

    let to = Address::new("mnQLoVaZ3w1NLVmUhfG8hh6WoG3iu7cnNw").unwrap();
    let before = utxo_set.utxo.clone();
    let result = account.create_transaction(to, 4000, 2000, utxo_set);
    match result {
        Err(ErrorWallet::NotEnoughFunds(_)) => {}
        other => panic!("expected not enough funds, got {:?}", other),
    }
    assert_eq!(before.len(), 1);
}

#[test]
fn payment_spends_owned_output_and_returns_change() {
    let account = test_account();
    let mut utxo_set = UTXOSet::new();
    utxo_set.utxo.push((
        Outpoint::new([9; 32], 0),
        TransactionOutput {
            value: 5000,
            pk_script: account.address.generate_script_pubkey_p2pkh(),
        },
    ));

    let to = Address::new("mnQLoVaZ3w1NLVmUhfG8hh6WoG3iu7cnNw").unwrap();
    let transaction = account
        .create_transaction(to.clone(), 3000, 1000, utxo_set)
        .unwrap();

    assert_eq!(transaction.version, 1);
    assert_eq!(transaction.time, 0);
    assert_eq!(transaction.tx_in.len(), 1);
    assert_eq!(transaction.tx_in[0].previous_output, Outpoint::new([9; 32], 0));
    assert_eq!(transaction.tx_in[0].sequence, 0xFFFF_FFFF);
    assert_eq!(transaction.tx_out.len(), 2);
    assert_eq!(transaction.tx_out[0].value, 3000);
    assert_eq!(transaction.tx_out[0].pk_script, to.generate_script_pubkey_p2pkh());
    assert_eq!(transaction.tx_out[1].value, 1000);
    assert_eq!(
        transaction.tx_out[1].pk_script,
        account.address.generate_script_pubkey_p2pkh()
    );
    assert!(!transaction.tx_in[0].signature_script.is_empty());
}

#[test]
fn bad_private_key_bytes_are_refused() {
    let all_ones: [u8; 32] = [0xFF; 32];
    assert!(PrivateKey::new(&all_ones).is_err());
}

#[test]
fn account_from_parts_checks_address_text() {
    let private_key_bytes: [u8; 32] = [1; 32];
    let public_key_bytes: [u8; 33] = [2; 33];
    let bad = Account::new("a", &private_key_bytes, &public_key_bytes, "no address");
    assert!(bad.is_err());
}

#[test]
fn wallet_keeps_names_unique_and_selects() {
    let mut wallet = Wallet::new();
    let account = test_account();
    assert!(wallet.add_account(account.clone()));
    assert!(!wallet.add_account(account.clone()));
    assert_eq!(wallet.get_accounts().len(), 1);
    assert!(wallet.get_selected_account().is_some());
    assert!(wallet.select_account("test"));
    assert!(!wallet.select_account("nobody"));
    assert!(wallet.remove_account("test"));
    assert_eq!(wallet.get_accounts().len(), 0);
}

#[test]
fn balance_sums_only_owned_outputs() {
    let account = test_account();
    let mut utxo_set = UTXOSet::new();
    utxo_set.utxo.push((
        Outpoint::new([9; 32], 0),
        TransactionOutput { value: 5000, pk_script: account.address.generate_script_pubkey_p2pkh() },
    ));
    utxo_set.utxo.push((
        Outpoint::new([9; 32], 1),
        TransactionOutput { value: 600, pk_script: vec![1, 2, 3] },
    ));
    utxo_set.utxo.push((
        Outpoint::new([9; 32], 2),
        TransactionOutput { value: 70, pk_script: account.address.generate_script_pubkey_p2pkh() },
    ));
    assert_eq!(account.get_balance_in_satoshis(utxo_set), 5070);
}
