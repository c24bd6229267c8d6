//! What holds of every board: facts that relate the lists, the numbering and
//! the edits to one another.

use crate::clock::Timestamp;
use crate::edits::{deleted, demoted, hoisted, moved, sibling, siblings_have_room};
use crate::listing::{
    before, count_in_scope, in_scope, is_listing, lemma_listing_exists, lemma_listing_is, listing,
    whole_board, Scope,
};
use crate::model::board::{
    active_in, column_has_room, lemma_next_order, next_order, numbered, resolved,
};
use crate::model::card::CardView;
use crate::text::parse_number;
use vstd::prelude::*;

verus! {

/// The cards that are not archived, in their old sequence.
pub open spec fn without_archived(cards: Seq<CardView>) -> Seq<CardView> {
    cards.filter(|c: CardView| !c.archived)
}

/// No list shows an archived card, whatever its scope, and a list is as long
/// as there are cards in its scope that are not archived.
pub proof fn law_lists_skip_archived(cards: Seq<CardView>, scope: Scope)
    ensures
        forall|k: int|
            0 <= k < listing(cards, scope).len() ==> !cards[#[trigger] listing(
                cards,
                scope,
            )[k]].archived,
        listing(cards, scope).len() == count_in_scope(cards, scope),
{
    lemma_listing_exists(cards, scope);
}

/// Archived cards do not count for a column's next order: it is what it
/// would be on a board without them.
pub proof fn law_next_order_skips_archived(cards: Seq<CardView>, column: Seq<char>)
    ensures
        next_order(cards, column) == next_order(without_archived(cards), column),
    decreases cards.len(),
{
    reveal(Seq::filter);
    if cards.len() > 0 {
        let front = cards.drop_last();
        law_next_order_skips_archived(front, column);
        assert(cards =~= front.push(cards.last()));
        front.lemma_filter_push(cards.last(), |c: CardView| !c.archived);
        if !cards.last().archived {
            let kept = without_archived(front);
            assert(kept.push(cards.last()).drop_last() =~= kept);
        }
    }
}

/// A rank never addresses an archived card.
pub proof fn law_ranks_skip_archived(cards: Seq<CardView>, number: int)
    ensures
        numbered(cards, number) matches Some(i) ==> 0 <= i < cards.len() && !cards[i].archived,
{
    lemma_listing_exists(cards, whole_board());
}

/// A token that reads as the number `n` addresses the card that stands at
/// place `n - 1` once the cards that are not archived are sorted by order,
/// and no card if there are fewer than `n` of them or `n` is zero.
pub proof fn law_resolve_by_rank(cards: Seq<CardView>, token: Seq<char>, sorted: Seq<int>)
    requires
        is_listing(cards, whole_board(), sorted),
        parse_number(token) is Some,
    ensures
        ({
            let n = parse_number(token)->0 as int;
            resolved(cards, token) == if 1 <= n <= sorted.len() {
                Some(sorted[n - 1])
            } else {
                None
            }
        }),
{
    lemma_listing_is(cards, whole_board(), sorted);
}

/// Hoisting puts a card at order zero, raises the order of each of its
/// siblings by exactly one, and so leaves it below all of them.
pub proof fn law_hoist(cards: Seq<CardView>, i: int, at: Timestamp)
    requires
        0 <= i < cards.len(),
        siblings_have_room(cards, i),
    ensures
        hoisted(cards, i, at)[i].order == 0,
        forall|j: int|
            0 <= j < cards.len() && sibling(cards, i, j) ==> (#[trigger] hoisted(
                cards,
                i,
                at,
            )[j]).order == cards[j].order + 1 && hoisted(cards, i, at)[i].order < hoisted(
                cards,
                i,
                at,
            )[j].order,
        forall|j: int|
            0 <= j < cards.len() && j != i && !sibling(cards, i, j) ==> #[trigger] hoisted(
                cards,
                i,
                at,
            )[j] == cards[j],
{
}

/// Demoting gives a card an order that no active card of its column
/// exceeded when it was demoted.
pub proof fn law_demote(cards: Seq<CardView>, i: int, at: Timestamp)
    requires
        0 <= i < cards.len(),
        column_has_room(cards, cards[i].column),
    ensures
        demoted(cards, i, at)[i].order == next_order(cards, cards[i].column),
        forall|j: int|
            0 <= j < cards.len() && active_in(#[trigger] cards[j], cards[i].column) ==> cards[j].order
                <= demoted(cards, i, at)[i].order,
{
    lemma_next_order(cards, cards[i].column);
}

/// Moving a card to another column gives it that column's name and next
/// order and leaves every other card alone.
pub proof fn law_move_fields(cards: Seq<CardView>, i: int, to: Seq<char>, at: Timestamp)
    requires
        0 <= i < cards.len(),
        column_has_room(cards, to),
    ensures
        moved(cards, i, to, at)[i].column == to,
        moved(cards, i, to, at)[i].order == next_order(cards, to),
        moved(cards, i, to, at).len() == cards.len(),
        forall|j: int|
            0 <= j < cards.len() && j != i ==> #[trigger] moved(cards, i, to, at)[j] == cards[j],
{
    lemma_next_order(cards, to);
}

/// A card that moves to another column is gone from every list of the
/// column it left.
pub proof fn law_move_leaves_source(
    cards: Seq<CardView>,
    i: int,
    to: Seq<char>,
    at: Timestamp,
    scope: Scope,
)
    requires
        0 <= i < cards.len(),
        cards[i].column != to,
        scope.column == Some(cards[i].column),
    ensures
        !listing(moved(cards, i, to, at), scope).contains(i),
{
    let after = moved(cards, i, to, at);
    lemma_listing_exists(after, scope);
    let list = listing(after, scope);
    if list.contains(i) {
        let k = choose|k: int| 0 <= k < list.len() && list[k] == i;
        assert(in_scope(after[list[k]], scope));
    }
}

/// A card that moves to another column stands last in every list of that
/// column which shows it.
pub proof fn law_move_enters_last(
    cards: Seq<CardView>,
    i: int,
    to: Seq<char>,
    at: Timestamp,
    scope: Scope,
)
    requires
        0 <= i < cards.len(),
        column_has_room(cards, to),
        cards[i].column != to,
        scope.column == Some(to),
        in_scope(moved(cards, i, to, at)[i], scope),
    ensures
        listing(moved(cards, i, to, at), scope).len() > 0,
        listing(moved(cards, i, to, at), scope).last() == i,
{
    let after = moved(cards, i, to, at);
    lemma_next_order(cards, to);
    lemma_listing_exists(after, scope);
    let list = listing(after, scope);
    assert(list.contains(i));
    let k = choose|k: int| 0 <= k < list.len() && list[k] == i;
    if k < list.len() - 1 {
        let j = list[k + 1];
        assert(before(after, list[k], list[k + 1]));
        assert(in_scope(after[j], scope));
        assert(j != i);
        assert(after[j] == cards[j]);
        assert(active_in(cards[j], to));
        assert(false);
    }
}

/// No position stands twice in a list.
pub proof fn law_list_has_no_repeats(cards: Seq<CardView>, scope: Scope)
    ensures
        forall|k: int, l: int|
            0 <= k < l < listing(cards, scope).len() ==> #[trigger] listing(cards, scope)[k]
                != #[trigger] listing(cards, scope)[l],
{
    lemma_listing_exists(cards, scope);
    let list = listing(cards, scope);
    assert forall|k: int, l: int| 0 <= k < l < list.len() implies #[trigger] list[k]
        != #[trigger] list[l] by {
        assert(before(cards, list[k], list[l]));
    }
}

/// When a card moves to another column, a list of the column it left is
/// the list it was without that card: the cards that stay keep their
/// sequence. A list that did not show the card stays as it was.
pub proof fn law_move_source_list(
    cards: Seq<CardView>,
    i: int,
    to: Seq<char>,
    at: Timestamp,
    scope: Scope,
)
    requires
        0 <= i < cards.len(),
        cards[i].column != to,
        scope.column == Some(cards[i].column),
    ensures
        forall|k: int|
            0 <= k < listing(cards, scope).len() && #[trigger] listing(cards, scope)[k] == i
                ==> listing(moved(cards, i, to, at), scope) == listing(cards, scope).remove(k),
        !listing(cards, scope).contains(i) ==> listing(moved(cards, i, to, at), scope) == listing(
            cards,
            scope,
        ),
{
    let after = moved(cards, i, to, at);
    let list = listing(cards, scope);
    lemma_listing_exists(cards, scope);
    law_list_has_no_repeats(cards, scope);
    assert forall|k: int| 0 <= k < list.len() && #[trigger] list[k] == i implies listing(
        after,
        scope,
    ) == list.remove(k) by {
        let rest = list.remove(k);
        assert forall|m: int| 0 <= m < rest.len() implies 0 <= #[trigger] rest[m] < after.len()
            && in_scope(after[rest[m]], scope) by {
            let n = if m < k {
                m
            } else {
                m + 1
            };
            assert(rest[m] == list[n]);
            assert(in_scope(cards[list[n]], scope));
        }
        assert forall|x: int| 0 <= x < after.len() && in_scope(
            #[trigger] after[x],
            scope,
        ) implies rest.contains(x) by {
            assert(x != i);
            assert(in_scope(cards[x], scope));
            assert(list.contains(x));
            let n = choose|n: int| 0 <= n < list.len() && list[n] == x;
            let m = if n < k {
                n
            } else {
                n - 1
            };
            assert(rest[m] == x);
        }
        assert forall|m: int, n: int| 0 <= m < n < rest.len() implies before(
            after,
            #[trigger] rest[m],
            #[trigger] rest[n],
        ) by {
            let m0 = if m < k {
                m
            } else {
                m + 1
            };
            let n0 = if n < k {
                n
            } else {
                n + 1
            };
            assert(rest[m] == list[m0] && rest[n] == list[n0]);
            assert(before(cards, list[m0], list[n0]));
        }
        lemma_listing_is(after, scope, rest);
    }
    if !list.contains(i) {
        assert forall|m: int| 0 <= m < list.len() implies 0 <= #[trigger] list[m] < after.len()
            && in_scope(after[list[m]], scope) by {
            assert(in_scope(cards[list[m]], scope));
            assert(list.contains(list[m]));
        }
        assert forall|x: int| 0 <= x < after.len() && in_scope(
            #[trigger] after[x],
            scope,
        ) implies list.contains(x) by {
            assert(x != i);
            assert(in_scope(cards[x], scope));
        }
        assert forall|m: int, n: int| 0 <= m < n < list.len() implies before(
            after,
            #[trigger] list[m],
            #[trigger] list[n],
        ) by {
            assert(before(cards, list[m], list[n]));
            assert(list.contains(list[m]) && list.contains(list[n]));
        }
        lemma_listing_is(after, scope, list);
    }
}

/// When a card moves to another column, a list of that column which shows
/// the card is the list it was with the card added at its end.
pub proof fn law_move_destination_list(
    cards: Seq<CardView>,
    i: int,
    to: Seq<char>,
    at: Timestamp,
    scope: Scope,
)
    requires
        0 <= i < cards.len(),
        column_has_room(cards, to),
        cards[i].column != to,
        scope.column == Some(to),
        in_scope(moved(cards, i, to, at)[i], scope),
    ensures
        listing(moved(cards, i, to, at), scope) == listing(cards, scope).push(i),
{
    let after = moved(cards, i, to, at);
    let list = listing(cards, scope);
    let more = list.push(i);
    lemma_next_order(cards, to);
    lemma_listing_exists(cards, scope);
    assert forall|m: int| 0 <= m < more.len() implies 0 <= #[trigger] more[m] < after.len()
        && in_scope(after[more[m]], scope) by {
        if m < list.len() {
            assert(more[m] == list[m]);
            assert(in_scope(cards[list[m]], scope));
        }
    }
    assert forall|x: int| 0 <= x < after.len() && in_scope(
        #[trigger] after[x],
        scope,
    ) implies more.contains(x) by {
        if x == i {
            assert(more[list.len() as int] == i);
        } else {
            assert(in_scope(cards[x], scope));
            assert(list.contains(x));
            let n = choose|n: int| 0 <= n < list.len() && list[n] == x;
            assert(more[n] == x);
        }
    }
    assert forall|m: int, n: int| 0 <= m < n < more.len() implies before(
        after,
        #[trigger] more[m],
        #[trigger] more[n],
    ) by {
        assert(more[m] == list[m]);
        assert(in_scope(cards[list[m]], scope));
        assert(active_in(cards[list[m]], to));
        if n < list.len() {
            assert(more[n] == list[n]);
            assert(in_scope(cards[list[n]], scope));
            assert(before(cards, list[m], list[n]));
        }
    }
    lemma_listing_is(after, scope, more);
}

/// Deleting takes a card off the board for good: no card that is left has
/// its identifier, and every card that is left was there before.
pub proof fn law_delete_removes(cards: Seq<CardView>, id: Seq<char>)
    ensures
        forall|j: int|
            0 <= j < deleted(cards, id).len() ==> (#[trigger] deleted(cards, id)[j]).id != id
                && cards.contains(deleted(cards, id)[j]),
        deleted(cards, id).len() <= cards.len(),
{
    let keep = |c: CardView| c.id != id;
    cards.lemma_filter_len(keep);
    assert forall|j: int| 0 <= j < deleted(cards, id).len() implies (#[trigger] deleted(
        cards,
        id,
    )[j]).id != id && cards.contains(deleted(cards, id)[j]) by {
        cards.lemma_filter_pred(keep, j);
        assert(cards.filter(keep).contains(deleted(cards, id)[j]));
        cards.lemma_filter_contains_rev(keep, deleted(cards, id)[j]);
    }
}

} // verus!
