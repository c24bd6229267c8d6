//! The commands of the command line, each as a change to a board and the
//! line that reports it.

pub mod commands;
