pub mod dns_seeder;
pub mod error_connection;
pub mod ibd_methods;
pub mod p2p_protocol;
pub mod supported_services;
pub mod type_identifier;
