use vstd::prelude::*;

verus! {

/// The subsystem a log line speaks about.
#[derive(Debug, Clone, Copy, PartialEq, Eq, Structural)]
pub enum Level {
    Node,
    Wallet,
    Transaction,
    Configuration,
    Connection,
}

} // verus!
