pub mod account;
pub mod address;
pub mod error_wallet;
pub mod private_key;
pub mod public_key;
pub mod wallet;
pub mod wallet_persistence;
