use vstd::prelude::*;

verus! {

/// Which front end the node drives.
#[derive(Debug, Clone, Copy, PartialEq, Eq, Structural)]
pub enum Interface {
    /// The graphical one.
    Gui,
    /// The terminal one.
    Tui,
}

} // verus!
