//! Per-repository configuration.

use vstd::prelude::*;

verus! {

/// What a repository remembers between runs: the format version and the name
/// of the active board.
#[derive(Debug, Clone, PartialEq)]
pub struct RepoConfig {
    pub version: String,
    pub default_board: String,
}

#[verifier::ext_equal]
pub struct RepoConfigView {
    pub version: Seq<char>,
    pub default_board: Seq<char>,
}

impl View for RepoConfig {
    type V = RepoConfigView;

    open spec fn view(&self) -> RepoConfigView {
        RepoConfigView { version: self.version@, default_board: self.default_board@ }
    }
}

impl Default for RepoConfig {
    fn default() -> (config: RepoConfig)
        ensures
            config.version@ == "0.1.0"@,
            config.default_board@ == "default"@,
    {
        RepoConfig { version: "0.1.0".to_owned(), default_board: "default".to_owned() }
    }
}

impl RepoConfig {
    /// The same configuration with `name` as the active board.
    pub fn with_board(&self, name: &str) -> (config: RepoConfig)
        ensures
            config@ == (RepoConfigView { default_board: name@, ..self@ }),
    {
        RepoConfig { version: self.version.clone(), default_board: name.to_owned() }
    }
}

} // verus!
