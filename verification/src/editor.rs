//! The cell editor: while a pointer button is held and a cell is selected,
//! that cell is painted every frame.
//!
//! Editing is not gated by the Running/Editing state; only automaton
//! advancement is. With both buttons held, the right-button effect is
//! applied after the left-button effect in per-frame evaluation order, so
//! `Dirt` wins on conflict.

use vstd::prelude::*;
use crate::board::{grid_set, Board};
use crate::tile::{Coord, Tile};

verus! {

/// The grid after one frame of painting: with a cell selected, a held
/// right button paints it `Dirt` (winning over a simultaneously held left
/// button), a held left button alone paints it `Grass`, and no held button
/// leaves the grid unchanged; with nothing selected the grid is unchanged.
pub open spec fn painted(
    g: Seq<Seq<Tile>>,
    sel: Option<Coord>,
    left_held: bool,
    right_held: bool,
) -> Seq<Seq<Tile>> {
    match sel {
        None => g,
        Some(c) => if right_held {
            grid_set(g, c, Tile::Dirt)
        } else if left_held {
            grid_set(g, c, Tile::Grass)
        } else {
            g
        },
    }
}

/// Apply one frame of painting to the board. The button states are
/// sampled levels, not edges: a button held across many frames repaints
/// the selected cell each frame. The selection is untouched.
pub fn paint_selected(board: &mut Board, left_held: bool, right_held: bool)
    requires
        old(board).well_formed(),
    ensures
        final(board).well_formed(),
        final(board).sel() == old(board).sel(),
        final(board).grid() == painted(old(board).grid(), old(board).sel(), left_held, right_held),
{
    let ghost g0 = board.grid();
    if left_held {
        if let Some(c) = board.selected {
            board.set(c, Tile::Grass);
        }
    }
    if right_held {
        if let Some(c) = board.selected {
            board.set(c, Tile::Dirt);
        }
    }
    proof {
        if let Some(c) = old(board).sel() {
            if left_held && right_held {
                assert(grid_set(grid_set(g0, c, Tile::Grass), c, Tile::Dirt) =~~= grid_set(
                    g0,
                    c,
                    Tile::Dirt,
                ));
            }
        }
    }
}

} // verus!
