//! Project management on top of the boards: release notes, branch names,
//! links to issues and pull requests.

pub mod analytics;
pub mod branch;
pub mod error;
pub mod git;
pub mod model;
pub mod reports;
pub mod sprints;
pub mod sync;
