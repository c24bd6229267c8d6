//! The interactive editor: keys, the engine that interprets them, and the
//! layout that shows the result.

pub mod app;
pub mod keys;
pub mod ui;
