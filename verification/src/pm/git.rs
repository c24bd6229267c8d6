//! What is read of a repository's history.

use vstd::prelude::*;

verus! {

/// One commit: its hash, its whole message, the author's name, and the time
/// in seconds since 1970.
#[derive(Debug, Clone)]
pub struct CommitInfo {
    pub sha: String,
    pub message: String,
    pub author: String,
    pub time: i64,
}

} // verus!
