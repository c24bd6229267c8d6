//! What can go wrong in project management, and how it reads.

use crate::error::{kuk_message, KukError, KukErrorView};
use crate::text::concat;
use vstd::prelude::*;
use vstd::string::*;

verus! {

#[derive(Debug, Clone, PartialEq)]
pub enum PmError {
    NotInitialized,
    KukNotInitialized,
    AlreadyInitialized(String),
    NotGitRepo,
    Git(String),
    CardNotFound(String),
    SprintNotFound(String),
    SprintAlreadyExists(String),
    SprintAlreadyClosed(String),
    NoActiveSprint,
    InvalidDate(String),
    NotImplemented(String),
    /// A failure of a board operation.
    Kuk(KukError),
    /// A failure of input or output, as text.
    Io(String),
    /// A failure to read or write a document, as text.
    Json(String),
    Other(String),
}

pub enum PmErrorView {
    NotInitialized,
    KukNotInitialized,
    AlreadyInitialized(Seq<char>),
    NotGitRepo,
    Git(Seq<char>),
    CardNotFound(Seq<char>),
    SprintNotFound(Seq<char>),
    SprintAlreadyExists(Seq<char>),
    SprintAlreadyClosed(Seq<char>),
    NoActiveSprint,
    InvalidDate(Seq<char>),
    NotImplemented(Seq<char>),
    Kuk(KukErrorView),
    Io(Seq<char>),
    Json(Seq<char>),
    Other(Seq<char>),
}

impl View for PmError {
    type V = PmErrorView;

    open spec fn view(&self) -> PmErrorView {
        match self {
            PmError::NotInitialized => PmErrorView::NotInitialized,
            PmError::KukNotInitialized => PmErrorView::KukNotInitialized,
            PmError::AlreadyInitialized(s) => PmErrorView::AlreadyInitialized(s@),
            PmError::NotGitRepo => PmErrorView::NotGitRepo,
            PmError::Git(s) => PmErrorView::Git(s@),
            PmError::CardNotFound(s) => PmErrorView::CardNotFound(s@),
            PmError::SprintNotFound(s) => PmErrorView::SprintNotFound(s@),
            PmError::SprintAlreadyExists(s) => PmErrorView::SprintAlreadyExists(s@),
            PmError::SprintAlreadyClosed(s) => PmErrorView::SprintAlreadyClosed(s@),
            PmError::NoActiveSprint => PmErrorView::NoActiveSprint,
            PmError::InvalidDate(s) => PmErrorView::InvalidDate(s@),
            PmError::NotImplemented(s) => PmErrorView::NotImplemented(s@),
            PmError::Kuk(e) => PmErrorView::Kuk(e@),
            PmError::Io(s) => PmErrorView::Io(s@),
            PmError::Json(s) => PmErrorView::Json(s@),
            PmError::Other(s) => PmErrorView::Other(s@),
        }
    }
}

/// How a failure reads.
pub open spec fn pm_message(e: PmErrorView) -> Seq<char> {
    match e {
        PmErrorView::NotInitialized => "Not initialized. Run `kuk init` then `kuk-pm init` first."@,
        PmErrorView::KukNotInitialized => "kuk not initialized. Run `kuk init` first."@,
        PmErrorView::AlreadyInitialized(s) => "Already initialized at "@ + s,
        PmErrorView::NotGitRepo => "Not a git repository"@,
        PmErrorView::Git(s) => "Git error: "@ + s,
        PmErrorView::CardNotFound(s) => "Card not found: "@ + s,
        PmErrorView::SprintNotFound(s) => "Sprint not found: "@ + s,
        PmErrorView::SprintAlreadyExists(s) => "Sprint already exists: "@ + s,
        PmErrorView::SprintAlreadyClosed(s) => "Sprint already closed: "@ + s,
        PmErrorView::NoActiveSprint => "No active sprint found"@,
        PmErrorView::InvalidDate(s) => "Invalid date: "@ + s,
        PmErrorView::NotImplemented(s) => "Not yet implemented: "@ + s,
        PmErrorView::Kuk(e) => kuk_message(e),
        PmErrorView::Io(s) => s,
        PmErrorView::Json(s) => s,
        PmErrorView::Other(s) => s,
    }
}

impl PmError {
    /// How the failure reads.
    pub fn message(&self) -> (r: String)
        ensures
            r@ == pm_message(self@),
    {
        match self {
            PmError::NotInitialized => "Not initialized. Run `kuk init` then `kuk-pm init` first.".to_owned(),
            PmError::KukNotInitialized => "kuk not initialized. Run `kuk init` first.".to_owned(),
            PmError::AlreadyInitialized(s) => concat("Already initialized at ", s.as_str()),
            PmError::NotGitRepo => "Not a git repository".to_owned(),
            PmError::Git(s) => concat("Git error: ", s.as_str()),
            PmError::CardNotFound(s) => concat("Card not found: ", s.as_str()),
            PmError::SprintNotFound(s) => concat("Sprint not found: ", s.as_str()),
            PmError::SprintAlreadyExists(s) => concat("Sprint already exists: ", s.as_str()),
            PmError::SprintAlreadyClosed(s) => concat("Sprint already closed: ", s.as_str()),
            PmError::NoActiveSprint => "No active sprint found".to_owned(),
            PmError::InvalidDate(s) => concat("Invalid date: ", s.as_str()),
            PmError::NotImplemented(s) => concat("Not yet implemented: ", s.as_str()),
            PmError::Kuk(e) => e.message(),
            PmError::Io(s) => s.clone(),
            PmError::Json(s) => s.clone(),
            PmError::Other(s) => s.clone(),
        }
    }
}

} // verus!
