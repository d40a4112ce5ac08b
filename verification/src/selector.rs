//! The pointer-to-cell selector: maps a world-space click position to the
//! grid cell whose drawn sprite it falls on.
//!
//! World-space geometry reaches the core as fixed-point integers: the
//! layout collaborator supplies each cell's world center and visual size in
//! integer world units, and the click position arrives in the same units.
//!
//! Among the cells a click falls on, the one nearest the click wins, so the
//! selection is deterministic even if drawn cells were ever to overlap; on
//! exactly equal distances the earliest cell in iteration order wins.

use vstd::prelude::*;
use crate::board::Board;
use crate::tile::Coord;

verus! {

/// A world-space position in integer world units.
#[derive(Clone, Copy, Debug, PartialEq, Eq, Structural)]
pub struct WorldPos {
    pub x: i32,
    pub y: i32,
}

/// One cell's placement, as the layout collaborator drew it: its grid
/// address, its world-space center, and its visual size in world units.
#[derive(Clone, Copy, Debug, PartialEq, Eq, Structural)]
pub struct CellLayout {
    pub coord: Coord,
    pub center: WorldPos,
    pub size: i32,
}

/// The squared Euclidean distance from a click at `pos` to the center of
/// `cell`.
pub open spec fn dist_sq(pos: WorldPos, cell: CellLayout) -> int {
    (pos.x - cell.center.x) * (pos.x - cell.center.x) + (pos.y - cell.center.y) * (pos.y
        - cell.center.y)
}

/// Whether a click at `pos` falls on `cell`: the distance from the cell's
/// center is at most 0.8 times the cell's size. Written over squares so
/// that it is exact on integers: `d <= 0.8 * s` iff `25 * d^2 <= 16 * s^2`
/// for non-negative `d` and `s`.
pub open spec fn within_reach(pos: WorldPos, cell: CellLayout) -> bool {
    25 * dist_sq(pos, cell) <= 16 * (cell.size * cell.size)
}

/// The cell a click at `pos` selects among `cells`, if any: of the cells
/// the click falls on, the one whose center is nearest the click; between
/// cells at exactly equal distance, the earliest in iteration order wins
/// (a later cell replaces the running best only when strictly nearer).
pub open spec fn best_match(cells: Seq<CellLayout>, pos: WorldPos) -> Option<CellLayout>
    decreases cells.len(),
{
    if cells.len() == 0 {
        None
    } else {
        let rest = best_match(cells.drop_last(), pos);
        let last = cells.last();
        match rest {
            None => if within_reach(pos, last) {
                Some(last)
            } else {
                None
            },
            Some(b) => if within_reach(pos, last) && dist_sq(pos, last) < dist_sq(pos, b) {
                Some(last)
            } else {
                Some(b)
            },
        }
    }
}

/// The selection after a click at `pos` against `cells`, starting from the
/// prior selection `prev`: the nearest cell the click falls on; if it falls
/// on no cell, the prior selection is kept (a miss does not clear).
pub open spec fn selection_after(cells: Seq<CellLayout>, pos: WorldPos, prev: Option<Coord>) -> Option<
    Coord,
> {
    match best_match(cells, pos) {
        None => prev,
        Some(b) => Some(b.coord),
    }
}

/// `best_match` is what its name says: when it yields a cell, that cell is
/// one of `cells`, the click falls on it, and no cell the click falls on
/// is nearer; when it yields none, the click falls on no cell at all.
pub proof fn lemma_best_match_minimal(cells: Seq<CellLayout>, pos: WorldPos)
    ensures
        best_match(cells, pos) is None ==> forall|k: int|
            0 <= k < cells.len() ==> !within_reach(pos, #[trigger] cells[k]),
        best_match(cells, pos) matches Some(b) ==> {
            &&& exists|k: int| 0 <= k < cells.len() && cells[k] == b
            &&& within_reach(pos, b)
            &&& forall|k: int|
                0 <= k < cells.len() && within_reach(pos, #[trigger] cells[k]) ==> dist_sq(pos, b)
                    <= dist_sq(pos, cells[k])
        },
    decreases cells.len(),
{
    if cells.len() > 0 {
        let rest = cells.drop_last();
        let last = cells.last();
        let n = cells.len() as int;
        lemma_best_match_minimal(rest, pos);
        assert(forall|k: int| 0 <= k < n - 1 ==> #[trigger] cells[k] == rest[k]);
        assert(cells[n - 1] == last);
        if best_match(rest, pos) is None {
            if within_reach(pos, last) {
                assert(best_match(cells, pos) == Some(last));
                assert(exists|k: int| 0 <= k < n && cells[k] == last);
                assert forall|k: int|
                    0 <= k < n && within_reach(pos, #[trigger] cells[k]) implies dist_sq(pos, last)
                    <= dist_sq(pos, cells[k]) by {
                    if k < n - 1 {
                        assert(!within_reach(pos, rest[k]));
                    }
                }
            } else {
                assert forall|k: int| 0 <= k < n implies !within_reach(
                    pos,
                    #[trigger] cells[k],
                ) by {
                    if k < n - 1 {
                        assert(cells[k] == rest[k]);
                    }
                }
            }
        } else {
            let rb = best_match(rest, pos)->Some_0;
            let i = choose|i: int| 0 <= i < rest.len() && rest[i] == rb;
            assert(cells[i] == rb);
            if within_reach(pos, last) && dist_sq(pos, last) < dist_sq(pos, rb) {
                assert(best_match(cells, pos) == Some(last));
                assert(exists|k: int| 0 <= k < n && cells[k] == last);
                assert forall|k: int|
                    0 <= k < n && within_reach(pos, #[trigger] cells[k]) implies dist_sq(pos, last)
                    <= dist_sq(pos, cells[k]) by {
                    if k < n - 1 {
                        assert(cells[k] == rest[k]);
                    }
                }
            } else {
                assert(best_match(cells, pos) == Some(rb));
                assert(exists|k: int| 0 <= k < n && cells[k] == rb);
                assert forall|k: int|
                    0 <= k < n && within_reach(pos, #[trigger] cells[k]) implies dist_sq(pos, rb)
                    <= dist_sq(pos, cells[k]) by {
                    if k < n - 1 {
                        assert(cells[k] == rest[k]);
                    }
                }
            }
        }
    }
}

/// Selection is sticky: a click that falls on no cell at all leaves any
/// prior selection exactly as it was — a miss does not clear.
pub proof fn lemma_selection_sticky(cells: Seq<CellLayout>, pos: WorldPos, prev: Option<Coord>)
    requires
        forall|k: int| 0 <= k < cells.len() ==> !within_reach(pos, #[trigger] cells[k]),
    ensures
        best_match(cells, pos) is None,
        selection_after(cells, pos, prev) == prev,
    decreases cells.len(),
{
    if cells.len() > 0 {
        assert(!within_reach(pos, cells.last()));
        lemma_selection_sticky(cells.drop_last(), pos, prev);
    }
}

/// The squared distance from the click to the cell's center, as executable
/// code. Taken in 128-bit arithmetic, which cannot overflow on 32-bit
/// coordinates.
fn dist_sq_val(pos: WorldPos, cell: &CellLayout) -> (d: i128)
    ensures
        d == dist_sq(pos, *cell),
        0 <= d <= 0x2_0000_0000_0000_0000,
{
    let dx: i128 = pos.x as i128 - cell.center.x as i128;
    let dy: i128 = pos.y as i128 - cell.center.y as i128;
    proof {
        assert(0 <= dx * dx <= 0x1_0000_0000_0000_0000) by (nonlinear_arith)
            requires
                -0x1_0000_0000 <= dx <= 0x1_0000_0000,
        ;
        assert(0 <= dy * dy <= 0x1_0000_0000_0000_0000) by (nonlinear_arith)
            requires
                -0x1_0000_0000 <= dy <= 0x1_0000_0000,
        ;
    }
    dx * dx + dy * dy
}

/// Whether a click at `pos` falls on `cell`, as executable code.
pub fn hits(pos: WorldPos, cell: &CellLayout) -> (r: bool)
    ensures
        r == within_reach(pos, *cell),
{
    let d = dist_sq_val(pos, cell);
    let sz: i128 = cell.size as i128;
    proof {
        assert(0 <= sz * sz <= 0x4000_0000_0000_0000) by (nonlinear_arith)
            requires
                -0x8000_0000 <= sz <= 0x8000_0000,
        ;
    }
    25 * d <= 16 * (sz * sz)
}

/// Process this frame's click, if any, against the drawn cells. With no
/// click the selection is left unchanged (sticky). With a click, the
/// nearest cell whose sprite the click falls on becomes the selection; if
/// it falls on none, the selection is left unchanged. The grid itself is
/// untouched.
pub fn select_tile(board: &mut Board, click: Option<WorldPos>, cells: &Vec<CellLayout>)
    requires
        old(board).well_formed(),
        forall|k: int|
            0 <= k < cells@.len() ==> (#[trigger] cells@[k]).coord.in_bounds(old(board).side()),
    ensures
        final(board).well_formed(),
        final(board).grid() == old(board).grid(),
        match click {
            None => final(board).sel() == old(board).sel(),
            Some(pos) => final(board).sel() == selection_after(cells@, pos, old(board).sel()),
        },
{
    if let Some(pos) = click {
        let mut found = false;
        let mut best_coord = Coord { i: 0, j: 0 };
        let mut best_d: i128 = 0;
        let mut k: usize = 0;
        while k < cells.len()
            invariant
                board == old(board),
                board.well_formed(),
                k <= cells@.len(),
                forall|m: int|
                    0 <= m < cells@.len() ==> (#[trigger] cells@[m]).coord.in_bounds(board.side()),
                !found ==> best_match(cells@.take(k as int), pos) is None,
                found ==> {
                    &&& best_match(cells@.take(k as int), pos) is Some
                    &&& best_match(cells@.take(k as int), pos)->Some_0.coord == best_coord
                    &&& dist_sq(pos, best_match(cells@.take(k as int), pos)->Some_0) == best_d
                    &&& best_coord.in_bounds(board.side())
                },
            decreases cells@.len() - k,
        {
            proof {
                assert(cells@.take(k as int + 1).drop_last() =~= cells@.take(k as int));
                assert(cells@.take(k as int + 1).last() == cells@[k as int]);
            }
            if hits(pos, &cells[k]) {
                let d = dist_sq_val(pos, &cells[k]);
                if !found || d < best_d {
                    found = true;
                    best_coord = cells[k].coord;
                    best_d = d;
                }
            }
            k = k + 1;
        }
        proof {
            assert(cells@.take(cells@.len() as int) =~= cells@);
        }
        if found {
            board.selected = Some(best_coord);
        }
    }
}

/// The click to act on this frame: of the frame's drained event batch only
/// the most recent entry is consumed; earlier clicks are discarded. An
/// empty batch means no click this frame.
pub fn latest_click(clicks: &Vec<WorldPos>) -> (r: Option<WorldPos>)
    ensures
        clicks@.len() == 0 ==> r is None,
        clicks@.len() > 0 ==> r == Some(clicks@.last()),
{
    if clicks.len() == 0 {
        None
    } else {
        Some(clicks[clicks.len() - 1])
    }
}

} // verus!
