use vstd::prelude::*;

verus! {

/// Errors raised while finding and reaching peers.
#[derive(Debug, Clone, PartialEq, Eq)]
pub enum ErrorConnection {
    /// The seeder's host or port name no peer.
    ErrorInvalidIPOrPortNumber,
}

} // verus!
