use vstd::prelude::*;

verus! {

/// What can go wrong when querying the board or evaluating it.
#[derive(Debug, Clone, Copy, PartialEq, Eq, Structural)]
pub enum GridError {
    /// A cell index lies outside the board.
    IndexOutOfGrid,
    /// A chip identifier has no entry in the catalog.
    ChipNotFound,
    /// A target offset is not a legal relative position for the origin's column parity.
    InvalidRange,
}

} // verus!
