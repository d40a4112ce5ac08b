//! The per-frame driver of the core: selector, state toggle, editor, and
//! the cadence-gated generation step, in that fixed order, plus the
//! per-cell read that the renderer consumes.

use vstd::prelude::*;
use crate::board::Board;
use crate::editor::{paint_selected, painted};
use crate::mode::GameState;
use crate::rule::{stepped, update_board};
use crate::selector::{latest_click, select_tile, selection_after, CellLayout, WorldPos};
use crate::tile::{Coord, Tile};

verus! {

/// One scheduler tick: if and only if the state is `Running`, the
/// transition rule runs once and replaces the grid; in `Editing` the tick
/// elapses with the board bit-identical (the simulation is frozen, while
/// painting elsewhere in the frame remains live).
pub fn tick(board: &mut Board, state: GameState)
    requires
        old(board).well_formed(),
    ensures
        final(board).well_formed(),
        final(board).sel() == old(board).sel(),
        state is Running ==> final(board).grid() == stepped(old(board).grid()),
        state is Editing ==> final(board).grid() == old(board).grid(),
{
    if matches!(state, GameState::Running) {
        update_board(board);
    }
}

/// The external inputs of one frame, as the input collaborator hands them
/// over: the frame's drained click batch, the sampled button levels, the
/// rising edge of the toggle control, and whether the fixed cadence
/// elapsed this frame.
pub struct FrameInput {
    pub clicks: Vec<WorldPos>,
    pub left_held: bool,
    pub right_held: bool,
    pub toggle_pressed: bool,
    pub cadence_elapsed: bool,
}

/// The selection after the selector stage of a frame: the latest click of
/// the batch is matched against the drawn cells; an empty batch leaves the
/// selection unchanged.
pub open spec fn frame_selection(
    clicks: Seq<WorldPos>,
    cells: Seq<CellLayout>,
    prev: Option<Coord>,
) -> Option<Coord> {
    if clicks.len() == 0 {
        prev
    } else {
        selection_after(cells, clicks.last(), prev)
    }
}

/// The grid at the end of a frame: first the editor paints against the
/// frame's new selection, then, if the cadence elapsed and the state after
/// this frame's toggle is `Running`, one generation is taken.
pub open spec fn frame_grid(
    g: Seq<Seq<Tile>>,
    clicks: Seq<WorldPos>,
    cells: Seq<CellLayout>,
    prev_sel: Option<Coord>,
    state: GameState,
    left_held: bool,
    right_held: bool,
    toggle_pressed: bool,
    cadence_elapsed: bool,
) -> Seq<Seq<Tile>> {
    let sel = frame_selection(clicks, cells, prev_sel);
    let edited = painted(g, sel, left_held, right_held);
    let next_state = if toggle_pressed {
        state.flipped()
    } else {
        state
    };
    if cadence_elapsed && next_state is Running {
        stepped(edited)
    } else {
        edited
    }
}

/// Selection is sticky across frames: a frame whose click batch is empty
/// carries the prior selection through unchanged, whatever the cells.
pub proof fn lemma_selection_sticky_without_click(cells: Seq<CellLayout>, prev: Option<Coord>)
    ensures
        frame_selection(Seq::<WorldPos>::empty(), cells, prev) == prev,
{
}

/// Editing is independent of the state machine: in `Editing`, with the
/// toggle untouched, a frame never applies the transition rule, and a held
/// left button still turns the selected cell to `Grass`.
pub proof fn lemma_edit_independent_of_gating(
    g: Seq<Seq<Tile>>,
    cells: Seq<CellLayout>,
    c: Coord,
    cadence_elapsed: bool,
)
    requires
        c.i < g.len(),
        c.j < g[c.i as int].len(),
    ensures
        frame_grid(g, Seq::empty(), cells, Some(c), GameState::Editing, true, false, false, cadence_elapsed)
            == painted(g, Some(c), true, false),
        frame_grid(g, Seq::empty(), cells, Some(c), GameState::Editing, true, false, false, cadence_elapsed)[c.i as int][c.j as int]
            == Tile::Grass,
{
}

/// Run one frame of the core in its fixed order: selector, state toggle,
/// editor, cadence-gated transition. Returns the state that holds after
/// the frame; the board ends exactly as `frame_selection` and `frame_grid`
/// describe.
pub fn frame(board: &mut Board, state: GameState, input: &FrameInput, cells: &Vec<CellLayout>) -> (s:
    GameState)
    requires
        old(board).well_formed(),
        forall|k: int|
            0 <= k < cells@.len() ==> (#[trigger] cells@[k]).coord.in_bounds(old(board).side()),
    ensures
        final(board).well_formed(),
        s == (if input.toggle_pressed {
            state.flipped()
        } else {
            state
        }),
        final(board).sel() == frame_selection(input.clicks@, cells@, old(board).sel()),
        final(board).grid() == frame_grid(
            old(board).grid(),
            input.clicks@,
            cells@,
            old(board).sel(),
            state,
            input.left_held,
            input.right_held,
            input.toggle_pressed,
            input.cadence_elapsed,
        ),
{
    let click = latest_click(&input.clicks);
    select_tile(board, click, cells);
    let next_state = state.after_toggle(input.toggle_pressed);
    paint_selected(board, input.left_held, input.right_held);
    if input.cadence_elapsed {
        tick(board, next_state);
    }
    next_state
}

/// What the renderer reads for one cell: its tile and whether it is the
/// selected cell, from which the drawing collaborator picks a color.
pub fn cell_view(board: &Board, c: Coord) -> (r: (Tile, bool))
    requires
        board.well_formed(),
        c.in_bounds(board.side()),
    ensures
        r.0 == board.grid()[c.i as int][c.j as int],
        r.1 == (board.sel() == Some(c)),
{
    let is_selected = match board.selected() {
        Some(s) => s.i == c.i && s.j == c.j,
        None => false,
    };
    (board.get(c), is_selected)
}

} // verus!
