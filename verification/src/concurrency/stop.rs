use vstd::prelude::*;

verus! {

/// The order a peer's writer channel delivers to end that peer's loops.
#[derive(Debug, Clone, Copy, PartialEq, Eq, Structural)]
pub enum Stop {
    Stop,
}

} // verus!
