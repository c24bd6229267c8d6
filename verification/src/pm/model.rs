//! What project management keeps beside the boards.

use crate::clock::Timestamp;
use crate::model::card::opt_view;
use crate::text::{chars_of, contains_chars, is_substring};
use vstd::prelude::*;

verus! {

/// What a card knows of the repository and the forge: its branch, the
/// addresses of its issue and its pull request, its commits, and when it
/// was last brought in step.
#[derive(Debug, Clone)]
pub struct GitMetadata {
    pub branch: Option<String>,
    pub issue_url: Option<String>,
    pub pr_url: Option<String>,
    pub commits: Vec<String>,
    pub last_synced: Option<Timestamp>,
}

impl Default for GitMetadata {
    fn default() -> (meta: GitMetadata)
        ensures
            meta.branch is None,
            meta.issue_url is None,
            meta.pr_url is None,
            meta.commits@.len() == 0,
            meta.last_synced is None,
    {
        GitMetadata {
            branch: None,
            issue_url: None,
            pr_url: None,
            commits: Vec::new(),
            last_synced: None,
        }
    }
}

/// The address is that of a pull request: it holds `/pull/`, `/pulls/` or
/// `/merge_requests/`. Any other address is taken for that of an issue.
pub open spec fn is_pr_url(url: Seq<char>) -> bool {
    is_substring("/pull/"@, url) || is_substring("/pulls/"@, url) || is_substring(
        "/merge_requests/"@,
        url,
    )
}

/// Whether the address is that of a pull request.
pub fn is_pull_request(url: &str) -> (r: bool)
    ensures
        r == is_pr_url(url@),
{
    let chars = chars_of(url);
    contains_chars(&chars, &chars_of("/pull/")) || contains_chars(&chars, &chars_of("/pulls/"))
        || contains_chars(&chars, &chars_of("/merge_requests/"))
}

impl GitMetadata {
    /// Links the card to `url`: as its pull request if the address is that
    /// of one, else as its issue. Returns whether it was a pull request.
    pub fn link(&mut self, url: &str) -> (is_pr: bool)
        ensures
            is_pr == is_pr_url(url@),
            is_pr ==> opt_view(final(self).pr_url) == Some(url@) && final(self).issue_url == old(
                self,
            ).issue_url,
            !is_pr ==> opt_view(final(self).issue_url) == Some(url@) && final(self).pr_url == old(
                self,
            ).pr_url,
            final(self).branch == old(self).branch,
            final(self).commits == old(self).commits,
            final(self).last_synced == old(self).last_synced,
    {
        let is_pr = is_pull_request(url);
        if is_pr {
            self.pr_url = Some(url.to_owned());
        } else {
            self.issue_url = Some(url.to_owned());
        }
        is_pr
    }
}

/// The settings of project management for one repository.
#[derive(Debug, Clone)]
pub struct PmConfig {
    pub version: String,
    pub auto_branch: bool,
    pub sync_provider: Option<String>,
}

impl Default for PmConfig {
    fn default() -> (config: PmConfig)
        ensures
            config.version@ == "0.1.0"@,
            !config.auto_branch,
            config.sync_provider is None,
    {
        PmConfig { version: "0.1.0".to_owned(), auto_branch: false, sync_provider: None }
    }
}

/// A project: a name for a set of repositories.
#[derive(Debug, Clone)]
pub struct PmProject {
    pub name: String,
    pub repos: Vec<String>,
    pub description: Option<String>,
}

/// Where a sprint stands.
#[derive(Debug, Clone, Copy, PartialEq, Eq, Structural)]
pub enum SprintStatus {
    Planned,
    Active,
    Closed,
}

} // verus!
