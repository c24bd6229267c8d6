//! What can go wrong, and how it reads.

use crate::text::concat;
use vstd::prelude::*;
use vstd::string::*;

verus! {

/// A failure of a board operation.
#[derive(Debug, Clone, PartialEq)]
pub enum KukError {
    NotInitialized,
    AlreadyInitialized(String),
    BoardNotFound(String),
    CardNotFound(String),
    ColumnNotFound(String),
    LabelNotFound(String),
    /// A failure of input or output, as text.
    Io(String),
    /// A failure to read or write a document, as text.
    Json(String),
    Other(String),
}

pub enum KukErrorView {
    NotInitialized,
    AlreadyInitialized(Seq<char>),
    BoardNotFound(Seq<char>),
    CardNotFound(Seq<char>),
    ColumnNotFound(Seq<char>),
    LabelNotFound(Seq<char>),
    Io(Seq<char>),
    Json(Seq<char>),
    Other(Seq<char>),
}

impl View for KukError {
    type V = KukErrorView;

    open spec fn view(&self) -> KukErrorView {
        match self {
            KukError::NotInitialized => KukErrorView::NotInitialized,
            KukError::AlreadyInitialized(s) => KukErrorView::AlreadyInitialized(s@),
            KukError::BoardNotFound(s) => KukErrorView::BoardNotFound(s@),
            KukError::CardNotFound(s) => KukErrorView::CardNotFound(s@),
            KukError::ColumnNotFound(s) => KukErrorView::ColumnNotFound(s@),
            KukError::LabelNotFound(s) => KukErrorView::LabelNotFound(s@),
            KukError::Io(s) => KukErrorView::Io(s@),
            KukError::Json(s) => KukErrorView::Json(s@),
            KukError::Other(s) => KukErrorView::Other(s@),
        }
    }
}

/// How a failure reads.
pub open spec fn kuk_message(e: KukErrorView) -> Seq<char> {
    match e {
        KukErrorView::NotInitialized => "Not a kuk project. Run `kuk init` first."@,
        KukErrorView::AlreadyInitialized(s) => "Already initialized at "@ + s,
        KukErrorView::BoardNotFound(s) => "Board not found: "@ + s,
        KukErrorView::CardNotFound(s) => "Card not found: "@ + s,
        KukErrorView::ColumnNotFound(s) => "Column not found: "@ + s,
        KukErrorView::LabelNotFound(s) => "Label not found on card: "@ + s,
        KukErrorView::Io(s) => "IO error: "@ + s,
        KukErrorView::Json(s) => "JSON error: "@ + s,
        KukErrorView::Other(s) => s,
    }
}

impl KukError {
    /// How the failure reads.
    pub fn message(&self) -> (r: String)
        ensures
            r@ == kuk_message(self@),
    {
        match self {
            KukError::NotInitialized => "Not a kuk project. Run `kuk init` first.".to_owned(),
            KukError::AlreadyInitialized(s) => concat("Already initialized at ", s.as_str()),
            KukError::BoardNotFound(s) => concat("Board not found: ", s.as_str()),
            KukError::CardNotFound(s) => concat("Card not found: ", s.as_str()),
            KukError::ColumnNotFound(s) => concat("Column not found: ", s.as_str()),
            KukError::LabelNotFound(s) => concat("Label not found on card: ", s.as_str()),
            KukError::Io(s) => concat("IO error: ", s.as_str()),
            KukError::Json(s) => concat("JSON error: ", s.as_str()),
            KukError::Other(s) => s.clone(),
        }
    }
}

} // verus!
