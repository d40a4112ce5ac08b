//! The atomic state unit of the grid and its address.

use vstd::prelude::*;

verus! {

/// The two-valued state of one grid cell: `Grass` is alive, `Dirt` is dead.
#[derive(Clone, Copy, Debug, PartialEq, Eq, Structural)]
pub enum Tile {
    Grass,
    Dirt,
}

/// A grid address: row `i` and column `j`, each strictly below the board's
/// side length. A `Coord` is a value type: two coords are equal iff both
/// components match.
#[derive(Clone, Copy, Debug, PartialEq, Eq, Structural)]
pub struct Coord {
    pub i: usize,
    pub j: usize,
}

impl Coord {
    /// Whether this address lies inside a square grid of side `n`.
    pub open spec fn in_bounds(self, n: int) -> bool {
        self.i < n && self.j < n
    }
}

} // verus!
