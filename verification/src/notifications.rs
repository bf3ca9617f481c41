pub mod notification;
pub mod notifier;
