//! The changes that a front end makes to a board: adding a card at the
//! bottom of a column, moving it, hoisting, demoting, archiving and deleting
//! it, labelling and assigning it.
//!
//! A card is addressed by its identifier. Where several cards share one, the
//! first of them is meant.

use crate::clock::Timestamp;
use crate::model::board::{
    active_in, card_views, column_has_room, lemma_next_order, next_order, position, Board,
};
use crate::model::card::{Card, CardView};
use crate::text::{str_eq, views};
use vstd::prelude::*;

verus! {

/// The card at the bottom of `column`.
pub open spec fn placed(cards: Seq<CardView>, card: CardView) -> CardView {
    CardView { order: next_order(cards, card.column) as u32, ..card }
}

/// The cards after the card at `i` has moved to the bottom of column `to`.
pub open spec fn moved(cards: Seq<CardView>, i: int, to: Seq<char>, at: Timestamp) -> Seq<
    CardView,
> {
    cards.update(
        i,
        CardView { column: to, order: next_order(cards, to) as u32, updated_at: at, ..cards[i] },
    )
}

/// The card at `j` is a sibling of the card at `i`: another active card of
/// the same column, under another identifier.
pub open spec fn sibling(cards: Seq<CardView>, i: int, j: int) -> bool {
    &&& j != i
    &&& active_in(cards[j], cards[i].column)
    &&& cards[j].id != cards[i].id
}

/// Every sibling of the card at `i` has an order below the highest one, so
/// that each of them can be raised by one.
pub open spec fn siblings_have_room(cards: Seq<CardView>, i: int) -> bool {
    forall|j: int|
        0 <= j < cards.len() && #[trigger] sibling(cards, i, j) ==> cards[j].order < u32::MAX
}

/// The card `id` can move to the bottom of column `to`: there is no such
/// card, or the column has room.
pub open spec fn room_to_move(cards: Seq<CardView>, id: Seq<char>, to: Seq<char>) -> bool {
    position(cards, id) is Some ==> column_has_room(cards, to)
}

/// The card `id` can be hoisted: there is no such card, or its siblings
/// have room.
pub open spec fn room_to_hoist(cards: Seq<CardView>, id: Seq<char>) -> bool {
    position(cards, id) matches Some(p) ==> siblings_have_room(cards, p)
}

/// The card `id` can be demoted: there is no such card, or its column has
/// room.
pub open spec fn room_to_demote(cards: Seq<CardView>, id: Seq<char>) -> bool {
    position(cards, id) matches Some(p) ==> column_has_room(cards, cards[p].column)
}

/// The cards after the card at `i` was hoisted to the top of its column: it
/// has order zero, and each sibling's order is one higher than before.
pub open spec fn hoisted(cards: Seq<CardView>, i: int, at: Timestamp) -> Seq<CardView> {
    Seq::new(
        cards.len(),
        |j: int|
            if j == i {
                CardView { order: 0, updated_at: at, ..cards[i] }
            } else if sibling(cards, i, j) {
                CardView { order: (cards[j].order + 1) as u32, ..cards[j] }
            } else {
                cards[j]
            },
    )
}

/// The cards after the card at `i` was demoted to the bottom of its column.
pub open spec fn demoted(cards: Seq<CardView>, i: int, at: Timestamp) -> Seq<CardView> {
    cards.update(
        i,
        CardView {
            order: next_order(cards, cards[i].column) as u32,
            updated_at: at,
            ..cards[i]
        },
    )
}

/// The cards after the card at `i` was archived.
pub open spec fn archived(cards: Seq<CardView>, i: int, at: Timestamp) -> Seq<CardView> {
    cards.update(i, CardView { archived: true, updated_at: at, ..cards[i] })
}

/// The cards without those whose identifier is `id`.
pub open spec fn deleted(cards: Seq<CardView>, id: Seq<char>) -> Seq<CardView> {
    cards.filter(|c: CardView| c.id != id)
}

/// The labels with `tag` added at the end, unless it is among them.
pub open spec fn with_label(labels: Seq<Seq<char>>, tag: Seq<char>) -> Seq<Seq<char>> {
    if labels.contains(tag) {
        labels
    } else {
        labels.push(tag)
    }
}

/// The labels without `tag`.
pub open spec fn without_label(labels: Seq<Seq<char>>, tag: Seq<char>) -> Seq<Seq<char>> {
    labels.filter(|l: Seq<char>| l != tag)
}

/// The cards after the card at `i` got its labels replaced.
pub open spec fn relabelled(
    cards: Seq<CardView>,
    i: int,
    labels: Seq<Seq<char>>,
    at: Timestamp,
) -> Seq<CardView> {
    cards.update(i, CardView { labels, updated_at: at, ..cards[i] })
}

/// The cards after the card at `i` was assigned to `user`.
pub open spec fn assigned(cards: Seq<CardView>, i: int, user: Seq<char>, at: Timestamp) -> Seq<
    CardView,
> {
    cards.update(i, CardView { assignee: Some(user), updated_at: at, ..cards[i] })
}

/// Whether `tag` is among the labels.
pub fn has_label(labels: &Vec<String>, tag: &str) -> (r: bool)
    ensures
        r == views(labels@).contains(tag@),
{
    let mut i: usize = 0;
    while i < labels.len()
        invariant
            i <= labels.len(),
            forall|j: int| 0 <= j < i ==> views(labels@)[j] != tag@,
        decreases labels.len() - i,
    {
        if str_eq(labels[i].as_str(), tag) {
            assert(views(labels@)[i as int] == tag@);
            return true;
        }
        i += 1;
    }
    false
}

/// The labels without `tag`, in their old sequence.
pub fn drop_label(labels: &Vec<String>, tag: &str) -> (r: Vec<String>)
    ensures
        views(r@) == without_label(views(labels@), tag@),
{
    let ghost keep = |l: Seq<char>| l != tag@;
    let mut out: Vec<String> = Vec::new();
    let mut i: usize = 0;
    proof {
        reveal(Seq::filter);
        assert(views(labels@).take(0).filter(keep) =~= Seq::<Seq<char>>::empty());
        assert(views(out@) =~= Seq::<Seq<char>>::empty());
    }
    while i < labels.len()
        invariant
            i <= labels.len(),
            keep == (|l: Seq<char>| l != tag@),
            views(out@) == views(labels@).take(i as int).filter(keep),
        decreases labels.len() - i,
    {
        proof {
            let all = views(labels@);
            assert(all.take(i + 1) =~= all.take(i as int).push(labels@[i as int]@));
            all.take(i as int).lemma_filter_push(labels@[i as int]@, keep);
        }
        if !str_eq(labels[i].as_str(), tag) {
            let ghost before = out@;
            out.push(labels[i].clone());
            assert(views(out@) =~= views(before).push(labels@[i as int]@));
        }
        i += 1;
    }
    assert(views(labels@).take(i as int) =~= views(labels@));
    out
}

impl Board {
    /// Whether the card `id` can move to the bottom of column `to`.
    pub fn can_move(&self, id: &str, to: &str) -> (r: bool)
        ensures
            r == room_to_move(self@.cards, id@, to@),
    {
        match self.position(id) {
            Some(_) => self.column_has_room(to),
            None => true,
        }
    }

    /// Whether the card `id` can be hoisted.
    pub fn can_hoist(&self, id: &str) -> (r: bool)
        ensures
            r == room_to_hoist(self@.cards, id@),
    {
        let target: usize = match self.position(id) {
            Some(p) => p,
            None => {
                return true;
            },
        };
        let ghost cards = self@.cards;
        let mut j: usize = 0;
        while j < self.cards.len()
            invariant
                j <= self.cards.len(),
                target < self.cards.len(),
                cards == self@.cards,
                id@ == cards[target as int].id,
                position(cards, id@) == Some(target as int),
                forall|k: int|
                    0 <= k < j && #[trigger] sibling(cards, target as int, k) ==> cards[k].order
                        < u32::MAX,
            decreases self.cards.len() - j,
        {
            let card = &self.cards[j];
            assert(cards[j as int] == card@);
            assert(cards[target as int] == self.cards[target as int]@);
            if j != target && str_eq(card.column.as_str(), self.cards[target].column.as_str())
                && !card.archived && !str_eq(card.id.as_str(), id) && card.order == u32::MAX {
                assert(sibling(cards, target as int, j as int));
                return false;
            }
            j += 1;
        }
        true
    }

    /// Whether the card `id` can be demoted.
    pub fn can_demote(&self, id: &str) -> (r: bool)
        ensures
            r == room_to_demote(self@.cards, id@),
    {
        match self.position(id) {
            Some(p) => {
                assert(self@.cards[p as int] == self.cards[p as int]@);
                self.column_has_room(self.cards[p].column.as_str())
            },
            None => true,
        }
    }

    /// Puts `card` at the bottom of its column: its order becomes the
    /// column's next order, and the board holds it last.
    pub fn push_bottom(&mut self, card: Card)
        requires
            column_has_room(old(self)@.cards, card@.column),
        ensures
            final(self)@.cards == old(self)@.cards.push(placed(old(self)@.cards, card@)),
            final(self)@.name == old(self)@.name,
            final(self)@.columns == old(self)@.columns,
    {
        let mut card = card;
        proof {
            lemma_next_order(self@.cards, card@.column);
        }
        card.order = self.next_order(card.column.as_str());
        self.cards.push(card);
        assert(self@.cards =~= old(self)@.cards.push(placed(old(self)@.cards, card@)));
    }

    /// Moves the card `id` to the bottom of column `to`. Returns its
    /// position, or `None`, with the board unchanged, if there is no such
    /// card.
    pub fn move_to(&mut self, id: &str, to: &str, at: Timestamp) -> (r: Option<usize>)
        requires
            room_to_move(old(self)@.cards, id@, to@),
        ensures
            final(self)@.name == old(self)@.name,
            final(self)@.columns == old(self)@.columns,
            match r {
                Some(i) => position(old(self)@.cards, id@) == Some(i as int) && final(self)@.cards
                    == moved(old(self)@.cards, i as int, to@, at),
                None => position(old(self)@.cards, id@) is None && final(self)@ == old(self)@,
            },
    {
        let found = self.position(id);
        if found.is_none() {
            return None;
        }
        proof {
            lemma_next_order(self@.cards, to@);
        }
        let order = self.next_order(to);
        match self.find_card_mut(id) {
            Some(card) => {
                card.column = to.to_owned();
                card.order = order;
                card.updated_at = at;
            },
            None => {},
        }
        proof {
            if let Some(i) = found {
                assert(self@.cards =~= moved(old(self)@.cards, i as int, to@, at));
            } else {
                assert(self@ =~= old(self)@);
            }
        }
        found
    }

    /// Hoists the card `id` to the top of its column: it gets order zero and
    /// each sibling's order goes up by one. Returns its position, or `None`,
    /// with the board unchanged, if there is no such card.
    pub fn hoist(&mut self, id: &str, at: Timestamp) -> (r: Option<usize>)
        requires
            room_to_hoist(old(self)@.cards, id@),
        ensures
            final(self)@.name == old(self)@.name,
            final(self)@.columns == old(self)@.columns,
            match r {
                Some(i) => position(old(self)@.cards, id@) == Some(i as int) && final(self)@.cards
                    == hoisted(old(self)@.cards, i as int, at),
                None => position(old(self)@.cards, id@) is None && final(self)@ == old(self)@,
            },
    {
        let target: usize = match self.position(id) {
            Some(i) => i,
            None => {
                return None;
            },
        };
        let column = self.cards[target].column.clone();
        let ghost before = self@.cards;
        let mut j: usize = 0;
        while j < self.cards.len()
            invariant
                j <= self.cards.len(),
                self.cards.len() == before.len(),
                before == old(self)@.cards,
                siblings_have_room(before, target as int),
                target < before.len(),
                column@ == before[target as int].column,
                id@ == before[target as int].id,
                self.name == old(self).name,
                self.columns == old(self).columns,
                forall|k: int|
                    0 <= k < j ==> self@.cards[k] == if k == target {
                        before[k]
                    } else {
                        hoisted(before, target as int, at)[k]
                    },
                forall|k: int| j <= k < before.len() ==> self@.cards[k] == before[k],
            decreases self.cards.len() - j,
        {
            let ghost mid = self@.cards;
            assert(mid[j as int] == before[j as int]);
            let raise = j != target && str_eq(self.cards[j].column.as_str(), column.as_str())
                && !self.cards[j].archived && !str_eq(self.cards[j].id.as_str(), id);
            assert(raise == sibling(before, target as int, j as int));
            if raise {
                let card = &mut self.cards[j];
                card.order = card.order + 1;
            }
            assert(self@.cards =~= mid.update(j as int, self@.cards[j as int]));
            j += 1;
        }
        let ghost raised = self@.cards;
        let card = &mut self.cards[target];
        card.order = 0;
        card.updated_at = at;
        proof {
            assert(raised[target as int] == before[target as int]);
            assert forall|k: int| 0 <= k < before.len() implies self@.cards[k] == hoisted(
                before,
                target as int,
                at,
            )[k] by {
                if k != target {
                    assert(self@.cards[k] == raised[k]);
                }
            }
            assert(self@.cards =~= hoisted(before, target as int, at));
        }
        Some(target)
    }

    /// Demotes the card `id` to the bottom of its column. Returns its
    /// position, or `None`, with the board unchanged, if there is no such
    /// card.
    pub fn demote(&mut self, id: &str, at: Timestamp) -> (r: Option<usize>)
        requires
            room_to_demote(old(self)@.cards, id@),
        ensures
            final(self)@.name == old(self)@.name,
            final(self)@.columns == old(self)@.columns,
            match r {
                Some(i) => position(old(self)@.cards, id@) == Some(i as int) && final(self)@.cards
                    == demoted(old(self)@.cards, i as int, at),
                None => position(old(self)@.cards, id@) is None && final(self)@ == old(self)@,
            },
    {
        let target: usize = match self.position(id) {
            Some(i) => i,
            None => {
                return None;
            },
        };
        let column = self.cards[target].column.clone();
        proof {
            lemma_next_order(self@.cards, column@);
        }
        let order = self.next_order(column.as_str());
        let card = &mut self.cards[target];
        card.order = order;
        card.updated_at = at;
        assert(self@.cards =~= demoted(old(self)@.cards, target as int, at));
        Some(target)
    }

    /// Archives the card `id`. Returns its position, or `None`, with the
    /// board unchanged, if there is no such card.
    pub fn archive(&mut self, id: &str, at: Timestamp) -> (r: Option<usize>)
        ensures
            final(self)@.name == old(self)@.name,
            final(self)@.columns == old(self)@.columns,
            match r {
                Some(i) => position(old(self)@.cards, id@) == Some(i as int) && final(self)@.cards
                    == archived(old(self)@.cards, i as int, at),
                None => position(old(self)@.cards, id@) is None && final(self)@ == old(self)@,
            },
    {
        let target: usize = match self.position(id) {
            Some(i) => i,
            None => {
                return None;
            },
        };
        let card = &mut self.cards[target];
        card.archived = true;
        card.updated_at = at;
        assert(self@.cards =~= archived(old(self)@.cards, target as int, at));
        Some(target)
    }

    /// Deletes every card whose identifier is `id`; the others keep their
    /// sequence.
    pub fn delete(&mut self, id: &str)
        ensures
            final(self)@.name == old(self)@.name,
            final(self)@.columns == old(self)@.columns,
            final(self)@.cards == deleted(old(self)@.cards, id@),
    {
        let ghost keep = |c: CardView| c.id != id@;
        let ghost before = self@.cards;
        let mut rest: Vec<Card> = Vec::new();
        core::mem::swap(&mut self.cards, &mut rest);
        proof {
            reveal(Seq::filter);
            assert(card_views(rest@) == before);
            assert(before.take(0).filter(keep) =~= Seq::<CardView>::empty());
            assert(self@.cards =~= Seq::<CardView>::empty());
        }
        for card in it: rest
            invariant
                keep == (|c: CardView| c.id != id@),
                card_views(it.seq()) == before,
                self.name == old(self).name,
                self.columns == old(self).columns,
                self@.cards == before.take(it.index()).filter(keep),
        {
            proof {
                let i = it.index();
                assert(before[i] == it.seq()[i]@);
                assert(before.take(i + 1) =~= before.take(i).push(card@));
                before.take(i).lemma_filter_push(card@, keep);
            }
            if !str_eq(card.id.as_str(), id) {
                let ghost mid = self@.cards;
                self.cards.push(card);
                assert(self@.cards =~= mid.push(card@));
            }
        }
        assert(before.take(before.len() as int) =~= before);
    }

    /// Adds `tag` to the labels of the card `id`, unless it has it already.
    /// Returns the card's position, or `None`, with the board unchanged, if
    /// there is no such card.
    pub fn add_label(&mut self, id: &str, tag: &str, at: Timestamp) -> (r: Option<usize>)
        ensures
            final(self)@.name == old(self)@.name,
            final(self)@.columns == old(self)@.columns,
            match r {
                Some(i) => position(old(self)@.cards, id@) == Some(i as int) && final(self)@.cards
                    == relabelled(
                    old(self)@.cards,
                    i as int,
                    with_label(old(self)@.cards[i as int].labels, tag@),
                    at,
                ),
                None => position(old(self)@.cards, id@) is None && final(self)@ == old(self)@,
            },
    {
        let target: usize = match self.position(id) {
            Some(i) => i,
            None => {
                return None;
            },
        };
        let present = has_label(&self.cards[target].labels, tag);
        let card = &mut self.cards[target];
        if !present {
            let ghost labels = card.labels@;
            card.labels.push(tag.to_owned());
            assert(views(card.labels@) =~= views(labels).push(tag@));
        }
        card.updated_at = at;
        assert(self@.cards =~= relabelled(
            old(self)@.cards,
            target as int,
            with_label(old(self)@.cards[target as int].labels, tag@),
            at,
        ));
        Some(target)
    }

    /// Takes `tag` from the labels of the card `id`. Returns the card's
    /// position, or `None`, with the board unchanged, if there is no such
    /// card.
    pub fn remove_label(&mut self, id: &str, tag: &str, at: Timestamp) -> (r: Option<usize>)
        ensures
            final(self)@.name == old(self)@.name,
            final(self)@.columns == old(self)@.columns,
            match r {
                Some(i) => position(old(self)@.cards, id@) == Some(i as int) && final(self)@.cards
                    == relabelled(
                    old(self)@.cards,
                    i as int,
                    without_label(old(self)@.cards[i as int].labels, tag@),
                    at,
                ),
                None => position(old(self)@.cards, id@) is None && final(self)@ == old(self)@,
            },
    {
        let target: usize = match self.position(id) {
            Some(i) => i,
            None => {
                return None;
            },
        };
        let labels = drop_label(&self.cards[target].labels, tag);
        let card = &mut self.cards[target];
        card.labels = labels;
        card.updated_at = at;
        assert(self@.cards =~= relabelled(
            old(self)@.cards,
            target as int,
            without_label(old(self)@.cards[target as int].labels, tag@),
            at,
        ));
        Some(target)
    }

    /// Assigns the card `id` to `user`. Returns the card's position, or
    /// `None`, with the board unchanged, if there is no such card.
    pub fn assign(&mut self, id: &str, user: &str, at: Timestamp) -> (r: Option<usize>)
        ensures
            final(self)@.name == old(self)@.name,
            final(self)@.columns == old(self)@.columns,
            match r {
                Some(i) => position(old(self)@.cards, id@) == Some(i as int) && final(self)@.cards
                    == assigned(old(self)@.cards, i as int, user@, at),
                None => position(old(self)@.cards, id@) is None && final(self)@ == old(self)@,
            },
    {
        let target: usize = match self.position(id) {
            Some(i) => i,
            None => {
                return None;
            },
        };
        let card = &mut self.cards[target];
        card.assignee = Some(user.to_owned());
        card.updated_at = at;
        assert(self@.cards =~= assigned(old(self)@.cards, target as int, user@, at));
        Some(target)
    }
}

} // verus!
