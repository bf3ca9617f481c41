use vstd::prelude::*;

use super::error_log::ErrorLog;
use super::level::Level;

verus! {

/// One line of log: its level and its text.
pub type MessageLog = (Level, String);

#[verifier::external_type_specification]
#[verifier::external_body]
#[verifier::reject_recursive_types(T)]
pub struct ExSender<T>(std::sync::mpsc::Sender<T>);

/// Relies on `std::sync::mpsc::Sender::clone`: another handle to the same
/// channel.
pub assume_specification<T>[ <std::sync::mpsc::Sender<T> as Clone>::clone ](
    sender: &std::sync::mpsc::Sender<T>,
) -> std::sync::mpsc::Sender<T>;

/// Relies on `std::sync::mpsc::Sender::send`: hands the line to the
/// receiving end; whether that end still listens is outside this crate.
#[verifier::external_body]
fn send_log(sender: &std::sync::mpsc::Sender<MessageLog>, level: Level, message: String) -> (r:
    bool) {
    sender.send((level, message)).is_ok()
}

/// The sending half of the log channel; cloning it gives every subsystem its
/// own handle.
#[derive(Clone)]
pub struct LoggerSender {
    pub sender: std::sync::mpsc::Sender<MessageLog>,
}

impl LoggerSender {
    pub fn new(sender: std::sync::mpsc::Sender<MessageLog>) -> (r: LoggerSender) {
        LoggerSender { sender }
    }

    /// Sends one line under the given level; fails when the receiving end is
    /// gone.
    pub fn log(&self, level: Level, message: String) -> (r: Result<(), ErrorLog>) {
        if send_log(&self.sender, level, message) {
            Ok(())
        } else {
            Err(ErrorLog::ErrorReceiverNotFound)
        }
    }

    pub fn log_node(&self, message: String) -> (r: Result<(), ErrorLog>) {
        self.log(Level::Node, message)
    }

    pub fn log_wallet(&self, message: String) -> (r: Result<(), ErrorLog>) {
        self.log(Level::Wallet, message)
    }

    pub fn log_transaction(&self, message: String) -> (r: Result<(), ErrorLog>) {
        self.log(Level::Transaction, message)
    }

    pub fn log_configuration(&self, message: String) -> (r: Result<(), ErrorLog>) {
        self.log(Level::Configuration, message)
    }

    pub fn log_connection(&self, message: String) -> (r: Result<(), ErrorLog>) {
        self.log(Level::Connection, message)
    }
}

} // verus!
