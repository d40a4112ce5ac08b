//! The aggregate root: a square grid of tiles plus the current selection.

use vstd::prelude::*;
use crate::tile::{Coord, Tile};
use rand::Rng;

verus! {

/// The board: a square grid of tiles indexed as `tiles[i][j]`, plus an
/// optional selected cell. The side length is fixed at construction and
/// never changes afterwards.
pub struct Board {
    pub tiles: Vec<Vec<Tile>>,
    pub selected: Option<Coord>,
}

/// `g` with the tile at `c` replaced by `t`; every other cell unchanged.
pub open spec fn grid_set(g: Seq<Seq<Tile>>, c: Coord, t: Tile) -> Seq<Seq<Tile>> {
    g.update(c.i as int, g[c.i as int].update(c.j as int, t))
}

impl Board {
    /// The grid as a mathematical sequence of rows.
    pub open spec fn grid(self) -> Seq<Seq<Tile>> {
        self.tiles@.map_values(|row: Vec<Tile>| row@)
    }

    /// The currently selected cell, if any.
    pub open spec fn sel(self) -> Option<Coord> {
        self.selected
    }

    /// The side length of the grid.
    pub open spec fn side(self) -> int {
        self.grid().len() as int
    }

    /// The board invariant: the grid is square, and the selection, when
    /// present, addresses a cell inside it.
    pub open spec fn well_formed(self) -> bool {
        &&& forall|r: int|
            0 <= r < self.grid().len() ==> (#[trigger] self.grid()[r]).len() == self.grid().len()
        &&& match self.selected {
            Some(c) => c.in_bounds(self.side()),
            None => true,
        }
    }

    /// A board whose every cell holds `t`, with nothing selected.
    pub fn filled(n: usize, t: Tile) -> (b: Board)
        ensures
            b.well_formed(),
            b.side() == n,
            b.sel() is None,
            forall|r: int, c: int| 0 <= r < n && 0 <= c < n ==> b.grid()[r][c] == t,
    {
        let mut tiles: Vec<Vec<Tile>> = Vec::new();
        let mut i: usize = 0;
        while i < n
            invariant
                i <= n,
                tiles@.len() == i,
                forall|r: int| 0 <= r < i ==> (#[trigger] tiles@[r])@.len() == n,
                forall|r: int, c: int| 0 <= r < i && 0 <= c < n ==> tiles@[r]@[c] == t,
            decreases n - i,
        {
            let mut row: Vec<Tile> = Vec::new();
            let mut j: usize = 0;
            while j < n
                invariant
                    j <= n,
                    row@.len() == j,
                    forall|c: int| 0 <= c < j ==> row@[c] == t,
                decreases n - j,
            {
                row.push(t);
                j = j + 1;
            }
            tiles.push(row);
            i = i + 1;
        }
        Board { tiles, selected: None }
    }

    /// A randomly initialized board: every cell is independently set to
    /// `Grass` with probability `num / den`, else `Dirt`; nothing selected.
    /// The draws are unseeded by design, so the outcome is statistical, not
    /// reproducible.
    pub fn new(n: usize, num: u32, den: u32) -> (b: Board)
        requires
            0 < den,
            num <= den,
        ensures
            b.well_formed(),
            b.side() == n,
            b.sel() is None,
            num == 0 ==> forall|r: int, c: int|
                0 <= r < n && 0 <= c < n ==> b.grid()[r][c] == Tile::Dirt,
            num == den ==> forall|r: int, c: int|
                0 <= r < n && 0 <= c < n ==> b.grid()[r][c] == Tile::Grass,
    {
        let mut tiles: Vec<Vec<Tile>> = Vec::new();
        let mut i: usize = 0;
        while i < n
            invariant
                0 < den,
                num <= den,
                i <= n,
                tiles@.len() == i,
                forall|r: int| 0 <= r < i ==> (#[trigger] tiles@[r])@.len() == n,
                num == 0 ==> forall|r: int, c: int|
                    0 <= r < i && 0 <= c < n ==> tiles@[r]@[c] == Tile::Dirt,
                num == den ==> forall|r: int, c: int|
                    0 <= r < i && 0 <= c < n ==> tiles@[r]@[c] == Tile::Grass,
            decreases n - i,
        {
            let mut row: Vec<Tile> = Vec::new();
            let mut j: usize = 0;
            while j < n
                invariant
                    0 < den,
                    num <= den,
                    j <= n,
                    row@.len() == j,
                    num == 0 ==> forall|c: int| 0 <= c < j ==> row@[c] == Tile::Dirt,
                    num == den ==> forall|c: int| 0 <= c < j ==> row@[c] == Tile::Grass,
                decreases n - j,
            {
                let t = if draw_with_ratio(num, den) {
                    Tile::Grass
                } else {
                    Tile::Dirt
                };
                row.push(t);
                j = j + 1;
            }
            tiles.push(row);
            i = i + 1;
        }
        Board { tiles, selected: None }
    }

    /// The side length of the grid.
    pub fn len(&self) -> (n: usize)
        ensures
            n == self.side(),
    {
        self.tiles.len()
    }

    /// The tile at address `c`.
    pub fn get(&self, c: Coord) -> (t: Tile)
        requires
            self.well_formed(),
            c.in_bounds(self.side()),
        ensures
            t == self.grid()[c.i as int][c.j as int],
    {
        self.tiles[c.i][c.j]
    }

    /// Overwrite the tile at address `c` with `t`; the rest of the grid and
    /// the selection are unchanged.
    pub fn set(&mut self, c: Coord, t: Tile)
        requires
            old(self).well_formed(),
            c.in_bounds(old(self).side()),
        ensures
            final(self).well_formed(),
            final(self).grid() == grid_set(old(self).grid(), c, t),
            final(self).sel() == old(self).sel(),
    {
        proof {
            assert(self.grid()[c.i as int] == self.tiles@[c.i as int]@);
            assert(self.grid()[c.i as int].len() == self.grid().len());
        }
        self.tiles[c.i][c.j] = t;
        proof {
            assert(final(self).grid() =~~= grid_set(old(self).grid(), c, t));
        }
    }

    /// The currently selected cell, if any.
    pub fn selected(&self) -> (s: Option<Coord>)
        ensures
            s == self.sel(),
    {
        self.selected
    }
}

/// Relies on `rand::Rng::gen_ratio` on `rand::thread_rng()`: an unseeded
/// draw that is `true` with probability `num / den`; its documentation
/// guarantees `true` whenever `num == den` and `false` whenever `num == 0`,
/// and a panic when `den == 0` or `num > den`.
#[verifier::external_body]
fn draw_with_ratio(num: u32, den: u32) -> (r: bool)
    requires
        0 < den,
        num <= den,
    ensures
        num == den ==> r,
        num == 0 ==> !r,
{
    rand::thread_rng().gen_ratio(num, den)
}

} // verus!
