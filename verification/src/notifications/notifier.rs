use vstd::prelude::*;

use super::notification::Notification;

verus! {

/// A front end's ear: the node hands every event to each subscriber through
/// this. The terminal and graphical front ends implement it outside this
/// crate.
pub trait Notifier: Clone {
    fn notify(&self, notification: Notification);
}

} // verus!
