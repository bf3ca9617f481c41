use vstd::prelude::*;

verus! {

/// Errors raised while sending log lines.
#[derive(Debug, Clone, PartialEq, Eq)]
pub enum ErrorLog {
    /// No receiver is listening any more.
    ErrorReceiverNotFound,
}

} // verus!
