//! A board: a name, columns from left to right, and cards in no particular
//! order.

use crate::listing::{as_ints, list_cards, listing, whole_board};
use crate::model::card::{Card, CardView};
use crate::text::{parse_number, parse_usize, str_eq};
use vstd::prelude::*;

verus! {

/// A named lane, with an optional limit on the cards it should hold.
#[derive(Debug, Clone, PartialEq)]
pub struct Column {
    pub name: String,
    pub wip_limit: Option<u32>,
}

#[verifier::ext_equal]
pub struct ColumnView {
    pub name: Seq<char>,
    pub wip_limit: Option<u32>,
}

impl View for Column {
    type V = ColumnView;

    open spec fn view(&self) -> ColumnView {
        ColumnView { name: self.name@, wip_limit: self.wip_limit }
    }
}

#[derive(Debug, Clone, PartialEq)]
pub struct Board {
    pub name: String,
    pub columns: Vec<Column>,
    pub cards: Vec<Card>,
}

#[verifier::ext_equal]
pub struct BoardView {
    pub name: Seq<char>,
    pub columns: Seq<ColumnView>,
    pub cards: Seq<CardView>,
}

/// The views of a vector of cards.
pub open spec fn card_views(cards: Seq<Card>) -> Seq<CardView> {
    cards.map_values(|c: Card| c@)
}

/// The views of a vector of columns.
pub open spec fn column_views(columns: Seq<Column>) -> Seq<ColumnView> {
    columns.map_values(|c: Column| c@)
}

impl View for Board {
    type V = BoardView;

    open spec fn view(&self) -> BoardView {
        BoardView {
            name: self.name@,
            columns: column_views(self.columns@),
            cards: card_views(self.cards@),
        }
    }
}

/// Some column of `columns` is called `name`.
pub open spec fn has_column(columns: Seq<ColumnView>, name: Seq<char>) -> bool {
    exists|i: int| 0 <= i < columns.len() && (#[trigger] columns[i]).name == name
}

/// The card counts for its column: it belongs to `column` and is not archived.
pub open spec fn active_in(card: CardView, column: Seq<char>) -> bool {
    card.column == column && !card.archived
}

/// One more than the highest order among the active cards of `column`, and
/// zero where the column has none.
pub open spec fn next_order(cards: Seq<CardView>, column: Seq<char>) -> int
    decreases cards.len(),
{
    if cards.len() == 0 {
        0
    } else {
        let rest = next_order(cards.drop_last(), column);
        let card = cards.last();
        if active_in(card, column) && card.order + 1 > rest {
            card.order + 1
        } else {
            rest
        }
    }
}

/// No active card of `column` has the highest order a card can have, so the
/// column's next order is still a valid order.
pub open spec fn column_has_room(cards: Seq<CardView>, column: Seq<char>) -> bool {
    forall|i: int|
        0 <= i < cards.len() && active_in(#[trigger] cards[i], column) ==> cards[i].order
            < u32::MAX
}

/// `i` is the position of the first card whose identifier is `id`.
pub open spec fn is_first_with_id(cards: Seq<CardView>, id: Seq<char>, i: int) -> bool {
    &&& 0 <= i < cards.len()
    &&& cards[i].id == id
    &&& forall|j: int| 0 <= j < i ==> (#[trigger] cards[j]).id != id
}

/// The position of the first card whose identifier is `id`, if there is one.
pub open spec fn position(cards: Seq<CardView>, id: Seq<char>) -> Option<int> {
    if exists|i: int| is_first_with_id(cards, id, i) {
        Some(choose|i: int| is_first_with_id(cards, id, i))
    } else {
        None
    }
}

/// The position of the card with the 1-based rank `number` in the list of the
/// whole board: all cards that are not archived, by ascending order.
pub open spec fn numbered(cards: Seq<CardView>, number: int) -> Option<int> {
    let list = listing(cards, whole_board());
    if 1 <= number <= list.len() {
        Some(list[number - 1])
    } else {
        None
    }
}

/// The position of the card that a token addresses: a token that reads as a
/// number addresses by rank, any other token is an identifier.
pub open spec fn resolved(cards: Seq<CardView>, token: Seq<char>) -> Option<int> {
    match parse_number(token) {
        Some(number) => numbered(cards, number as int),
        None => position(cards, token),
    }
}

/// Where some card has the identifier, a first one has it.
pub proof fn lemma_position_exists(cards: Seq<CardView>, id: Seq<char>, i: int)
    requires
        0 <= i < cards.len(),
        cards[i].id == id,
    ensures
        position(cards, id) matches Some(p) && 0 <= p <= i && is_first_with_id(cards, id, p),
    decreases i,
{
    if exists|j: int| 0 <= j < i && (#[trigger] cards[j]).id == id {
        let j = choose|j: int| 0 <= j < i && (#[trigger] cards[j]).id == id;
        lemma_position_exists(cards, id, j);
    } else {
        assert(is_first_with_id(cards, id, i));
    }
}

/// What `next_order` is, stated without recursion: no active card of the
/// column reaches it, and unless it is zero some active card of the column
/// is just below it.
pub proof fn lemma_next_order(cards: Seq<CardView>, column: Seq<char>)
    ensures
        0 <= next_order(cards, column) <= u32::MAX + 1,
        forall|i: int|
            0 <= i < cards.len() && active_in(#[trigger] cards[i], column) ==> cards[i].order
                < next_order(cards, column),
        next_order(cards, column) > 0 ==> exists|i: int|
            0 <= i < cards.len() && active_in(#[trigger] cards[i], column) && cards[i].order + 1
                == next_order(cards, column),
        column_has_room(cards, column) ==> next_order(cards, column) <= u32::MAX,
    decreases cards.len(),
{
    if cards.len() > 0 {
        let front = cards.drop_last();
        lemma_next_order(front, column);
        assert forall|i: int|
            0 <= i < cards.len() && active_in(#[trigger] cards[i], column) implies cards[i].order
            < next_order(cards, column) by {
            if i < cards.len() - 1 {
                assert(front[i] == cards[i]);
            }
        }
        if next_order(cards, column) > 0 {
            if next_order(cards, column) == next_order(front, column) {
                let i = choose|i: int|
                    0 <= i < front.len() && active_in(#[trigger] front[i], column) && front[i].order
                        + 1 == next_order(front, column);
                assert(cards[i] == front[i]);
            } else {
                assert(active_in(cards[cards.len() - 1], column));
            }
        }
        if column_has_room(cards, column) {
            assert forall|i: int|
                0 <= i < front.len() && active_in(#[trigger] front[i], column) implies front[i].order
                < u32::MAX by {
                assert(front[i] == cards[i]);
            }
            assert(cards[cards.len() - 1] == cards.last());
        }
    }
}

impl Board {
    /// The board a new repository starts with: `default`, with the columns
    /// `todo`, `doing` and `done`, no limits and no cards.
    pub fn default_board() -> (board: Board)
        ensures
            board@.name == "default"@,
            board@.columns == seq![
                ColumnView { name: "todo"@, wip_limit: None },
                ColumnView { name: "doing"@, wip_limit: None },
                ColumnView { name: "done"@, wip_limit: None },
            ],
            board@.cards == Seq::<CardView>::empty(),
    {
        let mut columns: Vec<Column> = Vec::new();
        columns.push(Column { name: "todo".to_owned(), wip_limit: None });
        columns.push(Column { name: "doing".to_owned(), wip_limit: None });
        columns.push(Column { name: "done".to_owned(), wip_limit: None });
        let board = Board { name: "default".to_owned(), columns, cards: Vec::new() };
        assert(board@.columns =~= seq![
            ColumnView { name: "todo"@, wip_limit: None },
            ColumnView { name: "doing"@, wip_limit: None },
            ColumnView { name: "done"@, wip_limit: None },
        ]);
        assert(board@.cards =~= Seq::<CardView>::empty());
        board
    }

    /// Whether the board has a column called `name`.
    pub fn has_column(&self, name: &str) -> (r: bool)
        ensures
            r == has_column(self@.columns, name@),
    {
        let mut i: usize = 0;
        while i < self.columns.len()
            invariant
                i <= self.columns.len(),
                forall|j: int| 0 <= j < i ==> (#[trigger] self@.columns[j]).name != name@,
            decreases self.columns.len() - i,
        {
            if str_eq(self.columns[i].name.as_str(), name) {
                assert(self@.columns[i as int].name == name@);
                return true;
            }
            i += 1;
        }
        false
    }

    /// The order for a card that joins `column` at the bottom: one more than
    /// the highest order among the column's active cards, zero if it has none.
    pub fn next_order(&self, column: &str) -> (r: u32)
        requires
            column_has_room(self@.cards, column@),
        ensures
            r == next_order(self@.cards, column@),
    {
        let mut next: u32 = 0;
        let mut i: usize = 0;
        while i < self.cards.len()
            invariant
                i <= self.cards.len(),
                column_has_room(self@.cards, column@),
                next == next_order(self@.cards.take(i as int), column@),
            decreases self.cards.len() - i,
        {
            let card = &self.cards[i];
            proof {
                assert(self@.cards.take(i + 1).drop_last() =~= self@.cards.take(i as int));
                assert(self@.cards.take(i + 1).last() == card@);
                assert(self@.cards[i as int] == card@);
            }
            if str_eq(card.column.as_str(), column) && !card.archived && card.order >= next {
                next = card.order + 1;
            }
            i += 1;
        }
        assert(self@.cards.take(i as int) =~= self@.cards);
        next
    }

    /// Whether `column` can take one more card at the bottom: none of its
    /// active cards has the highest order there is.
    pub fn column_has_room(&self, column: &str) -> (r: bool)
        ensures
            r == column_has_room(self@.cards, column@),
    {
        let mut i: usize = 0;
        while i < self.cards.len()
            invariant
                i <= self.cards.len(),
                forall|j: int|
                    0 <= j < i && active_in(#[trigger] self@.cards[j], column@)
                        ==> self@.cards[j].order < u32::MAX,
            decreases self.cards.len() - i,
        {
            let card = &self.cards[i];
            assert(self@.cards[i as int] == card@);
            if str_eq(card.column.as_str(), column) && !card.archived && card.order == u32::MAX {
                assert(active_in(self@.cards[i as int], column@));
                return false;
            }
            i += 1;
        }
        true
    }

    /// The position of the first card whose identifier is `id`.
    pub fn position(&self, id: &str) -> (r: Option<usize>)
        ensures
            match r {
                Some(i) => position(self@.cards, id@) == Some(i as int),
                None => position(self@.cards, id@) is None,
            },
            r matches Some(i) ==> i < self.cards.len() && self.cards[i as int].id@ == id@,
    {
        let mut i: usize = 0;
        while i < self.cards.len()
            invariant
                i <= self.cards.len(),
                forall|j: int| 0 <= j < i ==> (#[trigger] self@.cards[j]).id != id@,
            decreases self.cards.len() - i,
        {
            if str_eq(self.cards[i].id.as_str(), id) {
                assert(is_first_with_id(self@.cards, id@, i as int));
                return Some(i);
            }
            i += 1;
        }
        None
    }

    /// The first card whose identifier is `id`.
    pub fn find_card(&self, id: &str) -> (r: Option<&Card>)
        ensures
            match r {
                Some(card) => position(self@.cards, id@) matches Some(i) && *card
                    == self.cards[i],
                None => position(self@.cards, id@) is None,
            },
    {
        match self.position(id) {
            Some(i) => Some(&self.cards[i]),
            None => None,
        }
    }

    /// The first card whose identifier is `id`, for changing it in place.
    /// Whatever the caller writes through the reference is what the board
    /// then holds at that position; no other card changes.
    pub fn find_card_mut(&mut self, id: &str) -> (r: Option<&mut Card>)
        ensures
            match r {
                Some(card) => position(old(self)@.cards, id@) matches Some(i) && *card == old(
                    self,
                ).cards[i] && final(self).cards@ == old(self).cards@.update(i, *final(card))
                    && final(self).name == old(self).name && final(self).columns == old(
                    self,
                ).columns,
                None => position(old(self)@.cards, id@) is None && *final(self) == *old(self),
            },
    {
        match self.position(id) {
            Some(i) => Some(&mut self.cards[i]),
            None => None,
        }
    }

    /// The card with the 1-based rank `number` among the cards that are not
    /// archived, taken by ascending order. No card for rank zero or a rank
    /// past the last.
    pub fn find_card_by_number(&self, number: usize) -> (r: Option<&Card>)
        ensures
            match r {
                Some(card) => numbered(self@.cards, number as int) matches Some(i) && 0 <= i
                    < self.cards.len() && *card == self.cards[i],
                None => numbered(self@.cards, number as int) is None,
            },
    {
        let list = list_cards(&self.cards, None, None);
        if number == 0 || number > list.len() {
            return None;
        }
        assert(as_ints(list@)[number - 1] == list@[number - 1]);
        Some(&self.cards[list[number - 1]])
    }

    /// The identifier of the card that `id_or_num` addresses: by rank if the
    /// token reads as a number, else by identifier. `None` if the rank is out
    /// of range or no card has the identifier.
    pub fn resolve_card_id(&self, id_or_num: &str) -> (r: Option<String>)
        ensures
            match r {
                Some(id) => resolved(self@.cards, id_or_num@) matches Some(i) && 0 <= i
                    < self.cards.len() && id@ == self@.cards[i].id,
                None => resolved(self@.cards, id_or_num@) is None,
            },
    {
        let found = match parse_usize(id_or_num) {
            Some(number) => self.find_card_by_number(number),
            None => self.find_card(id_or_num),
        };
        match found {
            Some(card) => Some(card.id.clone()),
            None => None,
        }
    }
}

} // verus!
