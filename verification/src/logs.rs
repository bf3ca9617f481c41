pub mod error_log;
pub mod level;
pub mod logger_sender;
