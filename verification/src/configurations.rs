pub mod connection_config;
pub mod error_configuration;
pub mod interface;
pub mod mode_config;
pub mod parsable;
