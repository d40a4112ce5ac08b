//! The transition rule: one generation of the automaton.
//!
//! Every cell of the new grid is computed from the same unmodified snapshot
//! of the old grid; no in-place mutation is visible mid-generation.

use vstd::prelude::*;
use crate::board::Board;
use crate::tile::{Coord, Tile};

verus! {

/// Whether `(i, j)` counts as a valid neighbor position on a square grid of
/// side `n`. The bound is deliberately asymmetric: row and column 0 are
/// excluded (`i > 0`, `j > 0`) while row and column `n - 1` are included.
/// The asymmetry is part of this rule, not an accident to be corrected.
pub open spec fn valid_pos(n: int, i: int, j: int) -> bool {
    0 < i && 0 < j && i < n && j < n
}

/// 1 if `(i, j)` is a valid neighbor position holding `Grass`, else 0.
pub open spec fn live_at(g: Seq<Seq<Tile>>, n: int, i: int, j: int) -> int {
    if valid_pos(n, i, j) && g[i][j] == Tile::Grass {
        1
    } else {
        0
    }
}

/// The number of live tiles among the eight grid-adjacent positions of
/// `(i, j)`, counting only valid positions.
pub open spec fn live_count(g: Seq<Seq<Tile>>, n: int, i: int, j: int) -> int {
    live_at(g, n, i - 1, j - 1) + live_at(g, n, i - 1, j) + live_at(g, n, i - 1, j + 1)
        + live_at(g, n, i, j - 1) + live_at(g, n, i, j + 1) + live_at(g, n, i + 1, j - 1)
        + live_at(g, n, i + 1, j) + live_at(g, n, i + 1, j + 1)
}

/// The rule table: 0 or 1 live neighbors kill, 2 preserve the prior tile,
/// 3 always yield `Grass`, 4 through 8 kill.
pub open spec fn next_tile_spec(count: int, prev: Tile) -> Tile {
    if count <= 1 {
        Tile::Dirt
    } else if count == 2 {
        prev
    } else if count == 3 {
        Tile::Grass
    } else {
        Tile::Dirt
    }
}

/// The whole grid after one generation: every cell is the rule table
/// applied to its own live-neighbor count in the old grid.
pub open spec fn stepped(g: Seq<Seq<Tile>>) -> Seq<Seq<Tile>> {
    Seq::new(
        g.len(),
        |i: int| Seq::new(g.len(), |j: int| next_tile_spec(live_count(g, g.len() as int, i, j), g[i][j])),
    )
}

/// The live-neighbor count is always one of 0 through 8: each of the eight
/// probed positions contributes 0 or 1.
pub proof fn lemma_live_count_range(g: Seq<Seq<Tile>>, n: int, i: int, j: int)
    ensures
        0 <= live_count(g, n, i, j) <= 8,
{
}

/// Totality of the rule table: for every live-neighbor count 0 through 8
/// and every prior tile, the new tile is defined and follows the table.
pub proof fn lemma_rule_total(count: int, prev: Tile)
    requires
        0 <= count <= 8,
    ensures
        count <= 1 ==> next_tile_spec(count, prev) == Tile::Dirt,
        count == 2 ==> next_tile_spec(count, prev) == prev,
        count == 3 ==> next_tile_spec(count, prev) == Tile::Grass,
        4 <= count ==> next_tile_spec(count, prev) == Tile::Dirt,
{
}

/// The boundary is asymmetric: a position in row 0 or column 0 is never a
/// valid neighbor, so a cell in row 0 draws its whole count from row 1;
/// positions in row or column `n - 1` are counted as usual.
pub proof fn lemma_boundary_asymmetry(g: Seq<Seq<Tile>>, n: int, i: int, j: int)
    ensures
        !valid_pos(n, 0, j),
        !valid_pos(n, i, 0),
        0 < i < n && 0 < j < n ==> valid_pos(n, i, j),
        i == 0 ==> live_count(g, n, i, j) == live_at(g, n, 1, j - 1) + live_at(g, n, 1, j)
            + live_at(g, n, 1, j + 1),
{
}

/// A grid that is entirely `Dirt` stays entirely `Dirt` after one
/// generation: every cell has zero live neighbors, and the table maps a
/// count of zero to `Dirt`.
pub proof fn lemma_all_dirt_stable(g: Seq<Seq<Tile>>)
    requires
        forall|i: int, j: int|
            0 <= i < g.len() && 0 <= j < g.len() ==> #[trigger] g[i][j] == Tile::Dirt,
    ensures
        stepped(g).len() == g.len(),
        forall|i: int, j: int|
            0 <= i < g.len() && 0 <= j < g.len() ==> #[trigger] stepped(g)[i][j] == Tile::Dirt,
{
    let n = g.len() as int;
    assert forall|i: int, j: int|
        0 <= i < g.len() && 0 <= j < g.len() implies #[trigger] stepped(g)[i][j] == Tile::Dirt by {
        assert forall|u: int, v: int| valid_pos(n, u, v) implies #[trigger] live_at(g, n, u, v) == 0 by {
            assert(g[u][v] == Tile::Dirt);
        }
        assert(live_count(g, n, i, j) == 0);
    }
}

/// 1 if the position `(i, j)` is a valid neighbor position holding
/// `Grass`, else 0. The arguments are the probed position itself, which may
/// lie on or beyond the boundary; validity is tested here.
fn live_at_pos(b: &Board, i: usize, j: usize) -> (r: u8)
    requires
        b.well_formed(),
    ensures
        r as int == live_at(b.grid(), b.side(), i as int, j as int),
        r <= 1,
{
    let n = b.len();
    if 0 < i && 0 < j && i < n && j < n {
        if matches!(b.get(Coord { i, j }), Tile::Grass) {
            1
        } else {
            0
        }
    } else {
        0
    }
}

/// The live-neighbor count of cell `(i, j)`: the eight adjacent positions
/// are probed in row-major order, skipping offsets that would underflow the
/// address space (those are invalid positions and contribute 0).
pub fn count_live_neighbors(b: &Board, i: usize, j: usize) -> (count: u8)
    requires
        b.well_formed(),
        i < b.side(),
        j < b.side(),
    ensures
        count as int == live_count(b.grid(), b.side(), i as int, j as int),
        count <= 8,
{
    let n = b.len();
    let mut count: u8 = 0;
    proof {
        // Binding `n` puts the vector-length bound in scope: with
        // `i < n` and `j < n`, the probed positions `i + 1` and `j + 1`
        // cannot overflow.
        assert(i < n && j < n);
    }
    if 1 <= i {
        if 1 <= j {
            count = count + live_at_pos(b, i - 1, j - 1);
        }
        count = count + live_at_pos(b, i - 1, j);
        count = count + live_at_pos(b, i - 1, j + 1);
    }
    if 1 <= j {
        count = count + live_at_pos(b, i, j - 1);
    }
    count = count + live_at_pos(b, i, j + 1);
    if 1 <= j {
        count = count + live_at_pos(b, i + 1, j - 1);
    }
    count = count + live_at_pos(b, i + 1, j);
    count = count + live_at_pos(b, i + 1, j + 1);
    count
}

/// The rule table as executable code. Counts above 8 cannot arise from
/// eight neighbors and are excluded rather than given a meaning.
pub fn next_tile(count: u8, prev: Tile) -> (t: Tile)
    requires
        count <= 8,
    ensures
        t == next_tile_spec(count as int, prev),
{
    match count {
        0 | 1 => Tile::Dirt,
        2 => prev,
        3 => Tile::Grass,
        _ => Tile::Dirt,
    }
}

/// Advance the board by one generation: the grid is replaced by `stepped`
/// of its old value, computed entirely from the old snapshot before any
/// cell is committed; the selection is untouched.
pub fn update_board(b: &mut Board)
    requires
        old(b).well_formed(),
    ensures
        final(b).well_formed(),
        final(b).side() == old(b).side(),
        final(b).grid() == stepped(old(b).grid()),
        final(b).sel() == old(b).sel(),
{
    let n = b.len();
    let ghost g0 = b.grid();
    let mut next: Vec<Vec<Tile>> = Vec::new();
    let mut i: usize = 0;
    while i < n
        invariant
            b == old(b),
            b.well_formed(),
            n == b.side(),
            i <= n,
            g0 == b.grid(),
            next@.len() == i,
            forall|r: int| 0 <= r < i ==> (#[trigger] next@[r])@.len() == n,
            forall|r: int, c: int|
                0 <= r < i && 0 <= c < n ==> #[trigger] next@[r]@[c] == next_tile_spec(
                    live_count(g0, n as int, r, c),
                    g0[r][c],
                ),
        decreases n - i,
    {
        let mut row: Vec<Tile> = Vec::new();
        let mut j: usize = 0;
        while j < n
            invariant
                b == old(b),
                b.well_formed(),
                n == b.side(),
                i < n,
                j <= n,
                g0 == b.grid(),
                row@.len() == j,
                forall|c: int|
                    0 <= c < j ==> #[trigger] row@[c] == next_tile_spec(
                        live_count(g0, n as int, i as int, c),
                        g0[i as int][c],
                    ),
            decreases n - j,
        {
            let count = count_live_neighbors(b, i, j);
            let prev = b.get(Coord { i, j });
            row.push(next_tile(count, prev));
            j = j + 1;
        }
        next.push(row);
        i = i + 1;
    }
    b.tiles = next;
    proof {
        assert(final(b).grid() =~~= stepped(g0));
    }
}

} // verus!
