//! An interactive cellular-automaton sandbox: a square grid of two-state
//! tiles evolves under a Life-like neighbor rule, while the user can pause
//! the simulation and hand-paint individual cells.
//!
//! The crate holds the core of the sandbox: the grid data model, the
//! neighbor-counting transition rule, the pointer-to-cell selection logic,
//! the Running/Editing state machine that gates simulation advancement, and
//! the per-frame update that ties them together. Window creation, rendering
//! and raw device polling are outside collaborators: each frame they hand
//! the core a world-space pointer position and button/key events, and read
//! back the tile, the selection and the state label to draw.

pub mod board;
pub mod editor;
pub mod engine;
pub mod mode;
pub mod rule;
pub mod selector;
pub mod tile;
