pub mod block_broadcasting;
pub mod block_download;
pub mod chain_updater;
pub mod connection_id;
pub mod error_node;
pub mod handshake;
pub mod initial_block_download;
pub mod message_response;
pub mod peer_manager;
