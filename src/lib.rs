//! Rules engine for Banqi (Chinese dark chess): pieces and their capture
//! table, the board of hidden, revealed and empty cells, movement legality,
//! the flip / move / undo state machine and the end-of-game test.

pub mod piece;
pub mod board;
pub mod rules;
pub mod engine;
pub mod setup;
pub mod command;
