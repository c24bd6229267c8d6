//! A local-first task board: boards of ordered columns and cards, the modal
//! editing engine that mutates them, and the projection that renders them.

pub mod cli;
pub mod clock;
pub mod edits;
pub mod error;
pub mod laws;
pub mod listing;
pub mod mcp;
pub mod model;
pub mod pm;
pub mod text;
pub mod tui;
