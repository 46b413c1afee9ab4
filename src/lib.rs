//! A two-player four-in-a-row game on a board of ten columns of ten rows:
//! tokens drop into columns, a line of four of one side in any orientation
//! through the last token wins, and a small state machine tracks turns and
//! restarts.

pub mod board;
pub mod game;
pub mod laws;

pub use board::{cell_mark, pos_fetch, pos_offset, run_length, top_level, wins_at, HEIGHT, WIDTH};
pub use game::{parse_command, Command, Feedback, Game, GameControl, InputError};
