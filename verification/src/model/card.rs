//! A card: one unit of work on a board.

use crate::clock::{fresh_id, now, Timestamp, ID_LEN};
use crate::text::views;
use std::collections::HashMap;
use vstd::prelude::*;

verus! {

/// `serde_json::Value`, the type of an extension value attached to a card.
/// The board never looks inside one; it only carries them along.
#[verifier::external_type_specification]
#[verifier::external_body]
pub struct ExJsonValue(serde_json::Value);

/// A unit of work. `column` names the column that holds the card; `order`
/// ranks it among the cards of that column, lower first.
#[derive(Debug, Clone, PartialEq)]
pub struct Card {
    pub id: String,
    pub title: String,
    pub column: String,
    pub order: u32,
    pub description: Option<String>,
    pub assignee: Option<String>,
    pub labels: Vec<String>,
    pub due: Option<Timestamp>,
    pub created_at: Timestamp,
    pub updated_at: Timestamp,
    pub metadata: HashMap<String, serde_json::Value>,
    pub archived: bool,
}

/// What a card is, mathematically: its texts as character sequences.
#[verifier::ext_equal]
pub struct CardView {
    pub id: Seq<char>,
    pub title: Seq<char>,
    pub column: Seq<char>,
    pub order: u32,
    pub description: Option<Seq<char>>,
    pub assignee: Option<Seq<char>>,
    pub labels: Seq<Seq<char>>,
    pub due: Option<Timestamp>,
    pub created_at: Timestamp,
    pub updated_at: Timestamp,
    pub metadata: Map<String, serde_json::Value>,
    pub archived: bool,
}

pub open spec fn opt_view(s: Option<String>) -> Option<Seq<char>> {
    match s {
        Some(t) => Some(t@),
        None => None,
    }
}

impl View for Card {
    type V = CardView;

    open spec fn view(&self) -> CardView {
        CardView {
            id: self.id@,
            title: self.title@,
            column: self.column@,
            order: self.order,
            description: opt_view(self.description),
            assignee: opt_view(self.assignee),
            labels: views(self.labels@),
            due: self.due,
            created_at: self.created_at,
            updated_at: self.updated_at,
            metadata: self.metadata@,
            archived: self.archived,
        }
    }
}

/// The card that `Card::new` makes from a title and a column, once the
/// identifier and the time of creation are known.
pub open spec fn new_card(
    id: Seq<char>,
    title: Seq<char>,
    column: Seq<char>,
    at: Timestamp,
) -> CardView {
    CardView {
        id,
        title,
        column,
        order: 0,
        description: None,
        assignee: None,
        labels: Seq::empty(),
        due: None,
        created_at: at,
        updated_at: at,
        metadata: Map::empty(),
        archived: false,
    }
}

impl Card {
    /// A card with the given identifier and time of creation, at order zero,
    /// with nothing else set.
    pub fn with_id(id: String, title: &str, column: &str, at: Timestamp) -> (card: Card)
        ensures
            card@ == new_card(id@, title@, column@, at),
    {
        let card = Card {
            id,
            title: title.to_owned(),
            column: column.to_owned(),
            order: 0,
            description: None,
            assignee: None,
            labels: Vec::new(),
            due: None,
            created_at: at,
            updated_at: at,
            metadata: HashMap::new(),
            archived: false,
        };
        assert(card@.labels =~= Seq::empty());
        card
    }

    /// A new card in `column`: a fresh identifier, created now, at order zero.
    pub fn new(title: &str, column: &str) -> (card: Card)
        ensures
            card@ == new_card(card.id@, title@, column@, card.created_at),
            card.id@.len() == ID_LEN,
    {
        let at = now();
        let id = fresh_id();
        Card::with_id(id, title, column, at)
    }
}

} // verus!
