pub mod block;
pub mod block_chain;
pub mod chain_persistence;
pub mod block_header;
pub mod block_version;
pub mod compact256;
pub mod error_block;
pub mod hash;
pub mod merkle_tree;
pub mod node_chain;
pub mod outpoint;
pub mod transaction;
pub mod transaction_coinbase;
pub mod transaction_coinbase_input;
pub mod transaction_input;
pub mod transaction_output;
pub mod utxo_set;
