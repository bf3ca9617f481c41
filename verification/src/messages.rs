pub mod addr_message;
pub mod alert_message;
pub mod bitfield_services;
pub mod block_message;
pub mod command_name;
pub mod compact_size;
pub mod fee_filter_message;
pub mod get_data_message;
pub mod get_headers_message;
pub mod headers_message;
pub mod inventory_message;
pub mod message;
pub mod message_header;
pub mod ping_message;
pub mod pong_message;
pub mod send_cmpct;
pub mod send_headers;
pub mod tx_message;
pub mod verack_message;
pub mod version_message;
