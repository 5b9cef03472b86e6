//! Rules engine for a two-player Mancala/Kalah-style sowing game.
//!
//! A `GameState` holds both players' six pits, both scores, and whose turn
//! it is (or that the game is over).  `get_next_state` applies one move:
//! it sows the chosen pit's stones along the board's circular path and
//! applies the capture, free-turn and end-of-game rules.  Every public
//! function carries a contract that pins its result down against the
//! mathematical model in [`model`], and [`laws`] proves the game's global
//! properties (stone conservation, terminal idempotence, turn alternation,
//! free-turn preservation, capture correctness) from that model.

pub mod model;
pub mod engine;
pub mod laws;
pub mod render;

pub use engine::{GameMode, GameSkeuomorph, GameState, Player};
