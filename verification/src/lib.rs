pub mod block_structure;
pub mod concurrency;
pub mod configurations;
pub mod connections;
pub mod logs;
pub mod messages;
pub mod node_structure;
pub mod notifications;
pub mod serialization;
pub mod wallet_structure;
