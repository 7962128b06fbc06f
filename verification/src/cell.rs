//! Cell status.

use vstd::prelude::*;

verus! {

/// The state of a single grid cell.
#[derive(Clone, Copy, Debug, PartialEq, Eq, Structural)]
pub enum Cell {
    /// Dead cell.
    Dead,
    /// Living cell.
    Alive,
}

impl Cell {
    /// True exactly when the cell is alive.
    pub open spec fn spec_alive(self) -> bool {
        self is Alive
    }

    /// Toggle the status of the cell.
    pub fn toggle(&mut self)
        ensures
            final(self).spec_alive() == !old(self).spec_alive(),
    {
        *self = match *self {
            Cell::Dead => Cell::Alive,
            Cell::Alive => Cell::Dead,
        };
    }
}

} // verus!
