use vstd::prelude::*;

verus! {

/// One square of the grid: dead or alive.
///
/// A cell is summed as 0 (dead) or 1 (alive) while neighbors are counted;
/// [`Cell::live_count`] gives that summand.
#[derive(Clone, Copy, Debug, PartialEq, Eq, Structural)]
pub enum Cell {
    Dead,
    Alive,
}

/// The state a toggle moves a cell to: the opposite of the current one.
pub open spec fn flip(c: Cell) -> Cell {
    match c {
        Cell::Dead => Cell::Alive,
        Cell::Alive => Cell::Dead,
    }
}

/// How much a cell adds to a neighbor count: 0 when dead, 1 when alive.
pub open spec fn live(c: Cell) -> int {
    match c {
        Cell::Dead => 0,
        Cell::Alive => 1,
    }
}

impl Cell {
    /// Flip this cell between the dead and the alive state.
    pub fn toggle(&mut self)
        ensures
            *final(self) == flip(*old(self)),
    {
        *self = match *self {
            Cell::Dead => Cell::Alive,
            Cell::Alive => Cell::Dead,
        };
    }

    /// The summand this cell contributes to a live-neighbor count.
    pub fn live_count(&self) -> (n: u8)
        ensures
            n as int == live(*self),
    {
        match self {
            Cell::Dead => 0,
            Cell::Alive => 1,
        }
    }
}

/// How neighbors beyond the edge of the grid are counted.
///
/// `Wrap` joins opposite edges into a torus; `Dead` treats everything outside
/// the grid as dead cells; `Alive` treats everything outside as alive.
#[derive(Clone, Copy, Debug, PartialEq, Eq, Structural)]
pub enum EdgeBehavior {
    Wrap,
    Dead,
    Alive,
}

} // verus!
