use vstd::prelude::*;

verus! {

/// How the initial block download proceeds.
#[derive(Debug, Clone, Copy, PartialEq, Eq, Structural)]
pub enum IBDMethod {
    /// Headers first, then the blocks of interest.
    HeaderFirst,
    /// Whole blocks from the start.
    BlocksFirst,
}

} // verus!
