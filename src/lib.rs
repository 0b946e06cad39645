//! A two-player game of tic-tac-toe on a 3x3 grid: the grid, move
//! validation, win and tie detection, and the turn-by-turn session logic.

pub mod grid;
pub mod game;
pub mod input;

pub use grid::{
    grid_mapping_to_indexes, turn, GameStates, Grid, EMPTY, MAX_TURNS, OUT_OF_RANGE_MSG,
    SLOT_FULL_MSG, TIE_MSG,
};
pub use input::{parse_usize, prompt_usize, read_placement, NOT_A_NUMBER_MSG};
pub use game::{Game, StepOutcome};
