//! Card lists: which cards of a board a list shows, and in what order.
//!
//! A list shows the cards that are not archived, that belong to the list's
//! column if it has one, and whose title contains the list's query if it has
//! one. It shows them by ascending order; cards of equal order keep the
//! sequence in which the board holds them. A list is a sequence of positions
//! in the board's cards.

use crate::model::card::{Card, CardView};
use crate::model::board::card_views;
use crate::text::{chars_of, contains_chars, lowercase, matches_query, str_eq, to_lowercase};
use vstd::prelude::*;

verus! {

/// What a list is restricted to.
pub struct Scope {
    /// The column whose cards are listed; all columns if `None`.
    pub column: Option<Seq<char>>,
    /// The text that a listed card's title contains, whatever the case of
    /// either; no restriction if `None`.
    pub query: Option<Seq<char>>,
}

/// The scope of a whole board's list: every card that is not archived.
pub open spec fn whole_board() -> Scope {
    Scope { column: None, query: None }
}

/// The card is shown by a list of this scope.
pub open spec fn in_scope(card: CardView, scope: Scope) -> bool {
    &&& !card.archived
    &&& scope.column matches Some(column) ==> card.column == column
    &&& scope.query matches Some(query) ==> matches_query(card.title, query)
}

/// The card at position `i` is listed before the card at position `j`.
pub open spec fn before(cards: Seq<CardView>, i: int, j: int) -> bool {
    cards[i].order < cards[j].order || (cards[i].order == cards[j].order && i < j)
}

/// `list` is the list of scope `scope` over the first `n` cards: it holds
/// positions of cards in scope only, holds each of them, and is sorted.
pub open spec fn is_listing_upto(cards: Seq<CardView>, scope: Scope, n: int, list: Seq<int>) -> bool {
    &&& forall|k: int|
        0 <= k < list.len() ==> 0 <= #[trigger] list[k] < n && in_scope(cards[list[k]], scope)
    &&& forall|i: int| 0 <= i < n && in_scope(#[trigger] cards[i], scope) ==> list.contains(i)
    &&& forall|k: int, l: int|
        0 <= k < l < list.len() ==> before(cards, #[trigger] list[k], #[trigger] list[l])
}

/// `list` is the list of scope `scope` over `cards`.
pub open spec fn is_listing(cards: Seq<CardView>, scope: Scope, list: Seq<int>) -> bool {
    is_listing_upto(cards, scope, cards.len() as int, list)
}

/// The list of scope `scope` over `cards`.
pub open spec fn listing(cards: Seq<CardView>, scope: Scope) -> Seq<int> {
    choose|list: Seq<int>| is_listing(cards, scope, list)
}

/// The positions held by a vector, as integers.
pub open spec fn as_ints(v: Seq<usize>) -> Seq<int> {
    v.map_values(|u: usize| u as int)
}

/// The scope that a column name and a query stand for.
pub open spec fn scope_of(column: Option<&str>, query: Option<&str>) -> Scope {
    Scope {
        column: match column {
            Some(c) => Some(c@),
            None => None,
        },
        query: match query {
            Some(q) => Some(q@),
            None => None,
        },
    }
}

/// Two lists of the same scope agree on their first `k` entries.
proof fn lemma_listings_agree(
    cards: Seq<CardView>,
    scope: Scope,
    a: Seq<int>,
    b: Seq<int>,
    k: int,
)
    requires
        is_listing(cards, scope, a),
        is_listing(cards, scope, b),
        0 <= k <= a.len(),
    ensures
        k <= b.len(),
        forall|j: int| 0 <= j < k ==> a[j] == b[j],
    decreases k,
{
    if k > 0 {
        lemma_listings_agree(cards, scope, a, b, k - 1);
        let x = a[k - 1];
        assert(in_scope(cards[x], scope));
        assert(b.contains(x));
        let p = choose|p: int| 0 <= p < b.len() && b[p] == x;
        if p < k - 1 {
            assert(a[p] == b[p]);
            assert(before(cards, a[p], a[k - 1]));
            assert(false);
        }
        if p > k - 1 {
            let y = b[k - 1];
            assert(before(cards, b[k - 1], b[p]));
            assert(in_scope(cards[y], scope));
            assert(a.contains(y));
            let q = choose|q: int| 0 <= q < a.len() && a[q] == y;
            if q < k - 1 {
                assert(a[q] == b[q]);
                assert(before(cards, b[q], b[k - 1]));
                assert(false);
            } else if q > k - 1 {
                assert(before(cards, a[k - 1], a[q]));
                assert(false);
            }
            assert(false);
        }
    }
}

/// A scope has one list only.
pub proof fn lemma_listing_unique(cards: Seq<CardView>, scope: Scope, a: Seq<int>, b: Seq<int>)
    requires
        is_listing(cards, scope, a),
        is_listing(cards, scope, b),
    ensures
        a == b,
{
    lemma_listings_agree(cards, scope, a, b, a.len() as int);
    lemma_listings_agree(cards, scope, b, a, b.len() as int);
    assert(a =~= b);
}

/// A sequence that meets the definition of the list is the list.
pub proof fn lemma_listing_is(cards: Seq<CardView>, scope: Scope, list: Seq<int>)
    requires
        is_listing(cards, scope, list),
    ensures
        list == listing(cards, scope),
{
    lemma_listing_unique(cards, scope, list, listing(cards, scope));
}

/// A list with the next card put in holds positions of cards in scope
/// only, and holds each of them.
proof fn lemma_insert_holds(cards: Seq<CardView>, scope: Scope, n: int, list: Seq<int>, p: int)
    requires
        0 <= n < cards.len(),
        is_listing_upto(cards, scope, n, list),
        in_scope(cards[n], scope),
        0 <= p <= list.len(),
    ensures
        forall|k: int|
            0 <= k < list.insert(p, n).len() ==> 0 <= #[trigger] list.insert(p, n)[k] < n + 1
                && in_scope(cards[list.insert(p, n)[k]], scope),
        forall|i: int|
            0 <= i < n + 1 && in_scope(#[trigger] cards[i], scope) ==> list.insert(p, n).contains(i),
{
    let out = list.insert(p, n);
    assert forall|k: int| 0 <= k < out.len() implies 0 <= #[trigger] out[k] < n + 1 && in_scope(
        cards[out[k]],
        scope,
    ) by {
        if k < p {
            assert(out[k] == list[k]);
        } else if k > p {
            assert(out[k] == list[k - 1]);
        }
    }
    assert forall|i: int| 0 <= i < n + 1 && in_scope(#[trigger] cards[i], scope) implies out.contains(
        i,
    ) by {
        if i == n {
            assert(out[p] == n);
        } else {
            assert(list.contains(i));
            let k = choose|k: int| 0 <= k < list.len() && list[k] == i;
            if k < p {
                assert(out[k] == i);
            } else {
                assert(out[k + 1] == i);
            }
        }
    }
}

/// A sorted list with the next card put in at the place its order gives it
/// is sorted.
proof fn lemma_insert_sorted(cards: Seq<CardView>, n: int, list: Seq<int>, p: int)
    requires
        0 <= n < cards.len(),
        forall|k: int| 0 <= k < list.len() ==> 0 <= #[trigger] list[k] < n,
        forall|k: int, l: int|
            0 <= k < l < list.len() ==> before(cards, #[trigger] list[k], #[trigger] list[l]),
        0 <= p <= list.len(),
        p > 0 ==> cards[list[p - 1]].order <= cards[n].order,
        forall|k: int| p <= k < list.len() ==> cards[#[trigger] list[k]].order > cards[n].order,
    ensures
        forall|k: int, l: int|
            0 <= k < l < list.insert(p, n).len() ==> before(
                cards,
                #[trigger] list.insert(p, n)[k],
                #[trigger] list.insert(p, n)[l],
            ),
{
    let out = list.insert(p, n);
    assert forall|k: int, l: int| 0 <= k < l < out.len() implies before(
        cards,
        #[trigger] out[k],
        #[trigger] out[l],
    ) by {
        if l < p {
            assert(out[k] == list[k] && out[l] == list[l]);
        } else if l == p {
            assert(out[k] == list[k]);
            if k < p - 1 {
                assert(before(cards, list[k], list[p - 1]));
            }
        } else if k == p {
            assert(out[l] == list[l - 1]);
        } else if k > p {
            assert(out[k] == list[k - 1] && out[l] == list[l - 1]);
        } else {
            assert(out[k] == list[k] && out[l] == list[l - 1]);
            if k < l - 1 {
                assert(before(cards, list[k], list[l - 1]));
            }
        }
    }
}

/// Putting the next card, which is in scope, at the place its order gives it
/// extends a list by that card.
proof fn lemma_listing_insert(cards: Seq<CardView>, scope: Scope, n: int, list: Seq<int>, p: int)
    requires
        0 <= n < cards.len(),
        is_listing_upto(cards, scope, n, list),
        in_scope(cards[n], scope),
        0 <= p <= list.len(),
        p > 0 ==> cards[list[p - 1]].order <= cards[n].order,
        forall|k: int| p <= k < list.len() ==> cards[#[trigger] list[k]].order > cards[n].order,
    ensures
        is_listing_upto(cards, scope, n + 1, list.insert(p, n)),
{
    lemma_insert_holds(cards, scope, n, list, p);
    lemma_insert_sorted(cards, n, list, p);
}

/// A card out of scope leaves a list as it is.
proof fn lemma_listing_skip(cards: Seq<CardView>, scope: Scope, n: int, list: Seq<int>)
    requires
        0 <= n < cards.len(),
        is_listing_upto(cards, scope, n, list),
        !in_scope(cards[n], scope),
    ensures
        is_listing_upto(cards, scope, n + 1, list),
{
}

/// Where a card of order `order` that joins `list` from the right comes to
/// stand: behind the last entry whose order is not above its own.
pub open spec fn place(cards: Seq<CardView>, list: Seq<int>, order: u32) -> int
    decreases list.len(),
{
    if list.len() == 0 || cards[list.last()].order <= order {
        list.len() as int
    } else {
        place(cards, list.drop_last(), order)
    }
}

proof fn lemma_place(cards: Seq<CardView>, list: Seq<int>, order: u32)
    ensures
        0 <= place(cards, list, order) <= list.len(),
        place(cards, list, order) > 0 ==> cards[list[place(cards, list, order) - 1]].order
            <= order,
        forall|k: int|
            place(cards, list, order) <= k < list.len() ==> cards[#[trigger] list[k]].order
                > order,
    decreases list.len(),
{
    if !(list.len() == 0 || cards[list.last()].order <= order) {
        let front = list.drop_last();
        lemma_place(cards, front, order);
        let p = place(cards, front, order);
        if p > 0 {
            assert(front[p - 1] == list[p - 1]);
        }
        assert forall|k: int| p <= k < list.len() implies cards[#[trigger] list[k]].order
            > order by {
            if k < list.len() - 1 {
                assert(front[k] == list[k]);
            }
        }
    }
}

/// The number of cards in scope.
pub open spec fn count_in_scope(cards: Seq<CardView>, scope: Scope) -> nat
    decreases cards.len(),
{
    if cards.len() == 0 {
        0
    } else {
        count_in_scope(cards.drop_last(), scope) + if in_scope(cards.last(), scope) {
            1nat
        } else {
            0nat
        }
    }
}

/// Builds the list over the first `n` cards, one card at a time.
proof fn lemma_build_listing(cards: Seq<CardView>, scope: Scope, n: int) -> (list: Seq<int>)
    requires
        0 <= n <= cards.len(),
    ensures
        is_listing_upto(cards, scope, n, list),
        list.len() == count_in_scope(cards.take(n), scope),
    decreases n,
{
    if n == 0 {
        let list = Seq::<int>::empty();
        assert(cards.take(0).len() == 0);
        list
    } else {
        let front = lemma_build_listing(cards, scope, n - 1);
        assert(cards.take(n).drop_last() =~= cards.take(n - 1));
        assert(cards.take(n).last() == cards[n - 1]);
        if in_scope(cards[n - 1], scope) {
            lemma_place(cards, front, cards[n - 1].order);
            let p = place(cards, front, cards[n - 1].order);
            lemma_listing_insert(cards, scope, n - 1, front, p);
            front.insert(p, n - 1)
        } else {
            lemma_listing_skip(cards, scope, n - 1, front);
            front
        }
    }
}

/// Every scope has its list, and the list is as long as there are cards in
/// scope.
pub proof fn lemma_listing_exists(cards: Seq<CardView>, scope: Scope)
    ensures
        is_listing(cards, scope, listing(cards, scope)),
        listing(cards, scope).len() == count_in_scope(cards, scope),
{
    let list = lemma_build_listing(cards, scope, cards.len() as int);
    assert(cards.take(cards.len() as int) =~= cards);
    lemma_listing_is(cards, scope, list);
}

/// Whether a list of the given column and query shows the card. `needle` is
/// the query in lowercase.
fn shows(card: &Card, column: Option<&str>, needle: &Option<Vec<char>>, Ghost(scope): Ghost<Scope>) -> (r:
    bool)
    requires
        scope.column == scope_of(column, None).column,
        match scope.query {
            Some(q) => needle matches Some(n) && n@ == lowercase(q),
            None => needle is None,
        },
    ensures
        r == in_scope(card@, scope),
{
    if card.archived {
        return false;
    }
    if let Some(c) = column {
        if !str_eq(card.column.as_str(), c) {
            return false;
        }
    }
    match needle {
        Some(n) => {
            let hay = chars_of(to_lowercase(card.title.as_str()).as_str());
            contains_chars(&hay, n)
        },
        None => true,
    }
}

/// The list of the given column and query over `cards`, as positions in
/// `cards`.
pub fn list_cards(cards: &Vec<Card>, column: Option<&str>, query: Option<&str>) -> (list: Vec<usize>)
    ensures
        as_ints(list@) == listing(card_views(cards@), scope_of(column, query)),
        is_listing(card_views(cards@), scope_of(column, query), as_ints(list@)),
        forall|k: int| 0 <= k < list.len() ==> list[k] < cards.len(),
{
    let ghost all = card_views(cards@);
    let ghost scope = scope_of(column, query);
    let needle: Option<Vec<char>> = match query {
        Some(q) => Some(chars_of(to_lowercase(q).as_str())),
        None => None,
    };
    let mut out: Vec<usize> = Vec::new();
    let mut i: usize = 0;
    while i < cards.len()
        invariant
            i <= cards.len(),
            all == card_views(cards@),
            scope == scope_of(column, query),
            match scope.query {
                Some(q) => needle matches Some(n) && n@ == lowercase(q),
                None => needle is None,
            },
            is_listing_upto(all, scope, i as int, as_ints(out@)),
            forall|k: int| 0 <= k < out.len() ==> #[trigger] out@[k] < i,
        decreases cards.len() - i,
    {
        assert(all[i as int] == cards[i as int]@);
        if shows(&cards[i], column, &needle, Ghost(scope)) {
            let order = cards[i].order;
            let mut p: usize = out.len();
            while p > 0 && cards[out[p - 1]].order > order
                invariant
                    p <= out.len(),
                    i < cards.len(),
                    order == cards[i as int].order,
                    all == card_views(cards@),
                    is_listing_upto(all, scope, i as int, as_ints(out@)),
                    forall|k: int| 0 <= k < out.len() ==> #[trigger] out@[k] < i,
                    forall|k: int|
                        p <= k < out.len() ==> all[#[trigger] as_ints(out@)[k]].order > order,
                decreases p,
            {
                assert(as_ints(out@)[p - 1] == out@[p - 1]);
                p -= 1;
            }
            proof {
                let list = as_ints(out@);
                if p > 0 {
                    assert(list[p - 1] == out@[p - 1]);
                }
                lemma_listing_insert(all, scope, i as int, list, p as int);
                assert(as_ints(out@.insert(p as int, i)) =~= list.insert(p as int, i as int));
            }
            out.insert(p, i);
        } else {
            proof {
                lemma_listing_skip(all, scope, i as int, as_ints(out@));
            }
        }
        i += 1;
    }
    proof {
        lemma_listing_is(all, scope, as_ints(out@));
        assert forall|k: int| 0 <= k < out.len() implies out[k] < cards.len() by {
            assert(as_ints(out@)[k] == out[k]);
        }
    }
    out
}

} // verus!
