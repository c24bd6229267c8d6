//! The entities of a board: cards, columns and the board itself.

pub mod board;
pub mod card;
pub mod config;
pub mod index;
