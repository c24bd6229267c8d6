//! Keeping cards in step with the issues and pull requests they link to.
//!
//! The states of the links are fetched by the caller. What follows from
//! them is decided here: which cards move to `done`, and what is reported.

use crate::clock::Timestamp;
use crate::model::board::Board;
use crate::model::card::{Card, CardView};
use crate::text::{
    char_views,
    chars_of,
    concat,
    split_chars,
    split_on,
    str_eq,
    string_of,
    strip_end,
    strip_end_chars,
};
use vstd::prelude::*;
use vstd::string::*;

verus! {

/// What a sync did, or in a dry run would do, to a card.
#[derive(Debug, Clone, Copy, PartialEq, Eq, Structural)]
pub enum SyncActionType {
    UpdateColumn,
    UpdateUrl,
    Skip,
}

/// One step of a sync.
#[derive(Debug, Clone)]
pub struct SyncAction {
    pub card_title: String,
    pub card_id: String,
    pub action: SyncActionType,
    pub detail: String,
}

#[verifier::ext_equal]
pub struct SyncActionView {
    pub card_title: Seq<char>,
    pub card_id: Seq<char>,
    pub action: SyncActionType,
    pub detail: Seq<char>,
}

impl View for SyncAction {
    type V = SyncActionView;

    open spec fn view(&self) -> SyncActionView {
        SyncActionView {
            card_title: self.card_title@,
            card_id: self.card_id@,
            action: self.action,
            detail: self.detail@,
        }
    }
}

pub open spec fn action_views(actions: Seq<SyncAction>) -> Seq<SyncActionView> {
    actions.map_values(|a: SyncAction| a@)
}

/// What was learnt of one link: its state, or why it could not be fetched.
#[derive(Debug)]
pub enum LinkState {
    /// The card has no such link.
    Unlinked,
    State(String),
    Failed(String),
}

pub enum LinkStateView {
    Unlinked,
    State(Seq<char>),
    Failed(Seq<char>),
}

impl View for LinkState {
    type V = LinkStateView;

    open spec fn view(&self) -> LinkStateView {
        match self {
            LinkState::Unlinked => LinkStateView::Unlinked,
            LinkState::State(s) => LinkStateView::State(s@),
            LinkState::Failed(e) => LinkStateView::Failed(e@),
        }
    }
}

/// What was learnt of the links of one card.
#[derive(Debug)]
pub struct CardLinks {
    pub issue: LinkState,
    pub pr: LinkState,
}

pub struct CardLinksView {
    pub issue: LinkStateView,
    pub pr: LinkStateView,
}

impl View for CardLinks {
    type V = CardLinksView;

    open spec fn view(&self) -> CardLinksView {
        CardLinksView { issue: self.issue@, pr: self.pr@ }
    }
}

pub open spec fn link_views(links: Seq<CardLinks>) -> Seq<CardLinksView> {
    links.map_values(|l: CardLinks| l@)
}

// ---------------------------------------------------------------------------
// Addresses
// ---------------------------------------------------------------------------

/// The owner, the repository and the number that the address of an issue or
/// a pull request names: of its pieces between slashes the fourth, the
/// third and the first from the end, trailing slashes not counted. An
/// address of fewer than five pieces names none.
pub open spec fn github_parts(url: Seq<char>) -> Option<(Seq<char>, Seq<char>, Seq<char>)> {
    let parts = split_on(strip_end(url, '/'), '/');
    if parts.len() >= 5 {
        Some((parts[parts.len() - 4], parts[parts.len() - 3], parts[parts.len() - 1]))
    } else {
        None
    }
}

/// Reads owner, repository and number from the address of an issue or a
/// pull request.
pub fn parse_github_url(url: &str) -> (r: Option<(String, String, String)>)
    ensures
        match r {
            Some((owner, repo, number)) => github_parts(url@) == Some((owner@, repo@, number@)),
            None => github_parts(url@) is None,
        },
{
    let parts = split_chars(&strip_end_chars(&chars_of(url), '/'), '/');
    let n = parts.len();
    if n >= 5 {
        proof {
            let views = char_views(parts@);
            assert(views[n - 4] == parts[n - 4]@);
            assert(views[n - 3] == parts[n - 3]@);
            assert(views[n - 1] == parts[n - 1]@);
        }
        Some((string_of(&parts[n - 4]), string_of(&parts[n - 3]), string_of(&parts[n - 1])))
    } else {
        None
    }
}

// ---------------------------------------------------------------------------
// Decisions
// ---------------------------------------------------------------------------

/// The state says that the work is over: an issue that is closed, a pull
/// request that is merged or closed.
pub open spec fn is_over(state: Seq<char>, is_pr: bool) -> bool {
    state == "closed"@ || (is_pr && state == "merged"@)
}

/// What a link is called in a report.
pub open spec fn link_name(is_pr: bool) -> Seq<char> {
    if is_pr {
        "PR"@
    } else {
        "issue"@
    }
}

/// What one link does to a card: a card whose link is over moves to `done`
/// unless it is there, which is reported, and in a dry run reported only; a
/// link that could not be fetched is reported as skipped.
pub open spec fn link_sync(
    card: CardView,
    state: LinkStateView,
    is_pr: bool,
    dry_run: bool,
    at: Timestamp,
) -> (CardView, Seq<SyncActionView>) {
    match state {
        LinkStateView::Unlinked => (card, Seq::empty()),
        LinkStateView::Failed(e) => (
            card,
            seq![
                SyncActionView {
                    card_title: card.title,
                    card_id: card.id,
                    action: SyncActionType::Skip,
                    detail: "failed to fetch "@ + link_name(is_pr) + ": "@ + e,
                },
            ],
        ),
        LinkStateView::State(s) => if is_over(s, is_pr) && card.column != "done"@ {
            (
                if dry_run {
                    card
                } else {
                    CardView { column: "done"@, updated_at: at, ..card }
                },
                seq![
                    SyncActionView {
                        card_title: card.title,
                        card_id: card.id,
                        action: SyncActionType::UpdateColumn,
                        detail: card.column + " → done ("@ + link_name(is_pr) + " "@ + s + ")"@,
                    },
                ],
            )
        } else {
            (card, Seq::empty())
        },
    }
}

/// What the links of a card do to it: first the issue, then the pull
/// request. An archived card is left alone.
pub open spec fn card_sync(card: CardView, links: CardLinksView, dry_run: bool, at: Timestamp) -> (
    CardView,
    Seq<SyncActionView>,
) {
    if card.archived {
        (card, Seq::empty())
    } else {
        let (first, issue_actions) = link_sync(card, links.issue, false, dry_run, at);
        let (second, pr_actions) = link_sync(first, links.pr, true, dry_run, at);
        (second, issue_actions + pr_actions)
    }
}

/// The cards after a sync; a card past the end of `links` has no links.
pub open spec fn synced_cards(
    cards: Seq<CardView>,
    links: Seq<CardLinksView>,
    dry_run: bool,
    at: Timestamp,
) -> Seq<CardView> {
    Seq::new(
        cards.len(),
        |i: int|
            if i < links.len() {
                card_sync(cards[i], links[i], dry_run, at).0
            } else {
                cards[i]
            },
    )
}

/// The actions of a sync over the first `n` cards, card by card.
pub open spec fn sync_actions(
    cards: Seq<CardView>,
    links: Seq<CardLinksView>,
    dry_run: bool,
    at: Timestamp,
    n: int,
) -> Seq<SyncActionView>
    decreases n,
{
    if n <= 0 {
        Seq::empty()
    } else {
        sync_actions(cards, links, dry_run, at, n - 1) + if n - 1 < links.len() && n - 1
            < cards.len() {
            card_sync(cards[n - 1], links[n - 1], dry_run, at).1
        } else {
            Seq::empty()
        }
    }
}

fn sync_link(
    card: &mut Card,
    state: &LinkState,
    is_pr: bool,
    dry_run: bool,
    at: Timestamp,
    actions: &mut Vec<SyncAction>,
)
    ensures
        final(card)@ == link_sync(old(card)@, state@, is_pr, dry_run, at).0,
        action_views(final(actions)@) == action_views(old(actions)@) + link_sync(
            old(card)@,
            state@,
            is_pr,
            dry_run,
            at,
        ).1,
{
    let name = if is_pr {
        "PR"
    } else {
        "issue"
    };
    let ghost before = action_views(actions@);
    match state {
        LinkState::Unlinked => {
            assert(before + Seq::<SyncActionView>::empty() =~= before);
        },
        LinkState::Failed(e) => {
            let mut detail = concat("failed to fetch ", name);
            detail.append(": ");
            detail.append(e.as_str());
            let action = SyncAction {
                card_title: card.title.clone(),
                card_id: card.id.clone(),
                action: SyncActionType::Skip,
                detail,
            };
            actions.push(action);
            assert(action_views(actions@) =~= before + seq![action@]);
            assert(action@.detail =~= "failed to fetch "@ + link_name(is_pr) + ": "@ + e@);
        },
        LinkState::State(s) => {
            let over = str_eq(s.as_str(), "closed") || (is_pr && str_eq(s.as_str(), "merged"));
            if over && !str_eq(card.column.as_str(), "done") {
                let mut detail = concat(card.column.as_str(), " → done (");
                detail.append(name);
                detail.append(" ");
                detail.append(s.as_str());
                detail.append(")");
                let action = SyncAction {
                    card_title: card.title.clone(),
                    card_id: card.id.clone(),
                    action: SyncActionType::UpdateColumn,
                    detail,
                };
                actions.push(action);
                assert(action_views(actions@) =~= before + seq![action@]);
                assert(action@.detail =~= old(card)@.column + " → done ("@ + link_name(is_pr)
                    + " "@ + s@ + ")"@);
                if !dry_run {
                    card.column = "done".to_owned();
                    card.updated_at = at;
                }
            } else {
                assert(before + Seq::<SyncActionView>::empty() =~= before);
            }
        },
    }
}

fn sync_card(
    card: &mut Card,
    links: &CardLinks,
    dry_run: bool,
    at: Timestamp,
    actions: &mut Vec<SyncAction>,
)
    ensures
        final(card)@ == card_sync(old(card)@, links@, dry_run, at).0,
        action_views(final(actions)@) == action_views(old(actions)@) + card_sync(
            old(card)@,
            links@,
            dry_run,
            at,
        ).1,
{
    let ghost before = action_views(actions@);
    if card.archived {
        assert(before + Seq::<SyncActionView>::empty() =~= before);
        return;
    }
    sync_link(card, &links.issue, false, dry_run, at, actions);
    let ghost first = link_sync(old(card)@, links@.issue, false, dry_run, at);
    sync_link(card, &links.pr, true, dry_run, at, actions);
    let ghost second = link_sync(first.0, links@.pr, true, dry_run, at);
    assert(action_views(actions@) =~= before + (first.1 + second.1));
}

/// Brings the cards in step with their links, `links[i]` being what was
/// learnt of the links of card `i`, with `at` as the time of the change.
/// Returns what was done, card by card; in a dry run nothing is changed and
/// the result says what would be done.
pub fn sync(board: &mut Board, links: &Vec<CardLinks>, dry_run: bool, at: Timestamp) -> (actions:
    Vec<SyncAction>)
    ensures
        final(board)@.name == old(board)@.name,
        final(board)@.columns == old(board)@.columns,
        final(board)@.cards == synced_cards(old(board)@.cards, link_views(links@), dry_run, at),
        action_views(actions@) == sync_actions(
            old(board)@.cards,
            link_views(links@),
            dry_run,
            at,
            old(board)@.cards.len() as int,
        ),
{
    let ghost before = board@.cards;
    let ghost all = link_views(links@);
    let mut actions: Vec<SyncAction> = Vec::new();
    let mut i: usize = 0;
    assert(action_views(actions@) =~= Seq::<SyncActionView>::empty());
    while i < board.cards.len()
        invariant
            i <= board.cards.len(),
            board.cards.len() == before.len(),
            before == old(board)@.cards,
            all == link_views(links@),
            board.name == old(board).name,
            board.columns == old(board).columns,
            forall|k: int|
                0 <= k < i ==> board@.cards[k] == synced_cards(before, all, dry_run, at)[k],
            forall|k: int| i <= k < before.len() ==> board@.cards[k] == before[k],
            action_views(actions@) == sync_actions(before, all, dry_run, at, i as int),
        decreases board.cards.len() - i,
    {
        let ghost mid = board@.cards;
        let ghost done = action_views(actions@);
        assert(mid[i as int] == before[i as int]);
        if i < links.len() {
            assert(all[i as int] == links[i as int]@);
            sync_card(&mut board.cards[i], &links[i], dry_run, at, &mut actions);
        } else {
            assert(done + Seq::<SyncActionView>::empty() =~= done);
        }
        assert(board@.cards =~= mid.update(i as int, board@.cards[i as int]));
        i += 1;
    }
    assert(board@.cards =~= synced_cards(before, all, dry_run, at));
    actions
}

/// Some card was moved, so the board has to be saved.
pub open spec fn moves_card(actions: Seq<SyncActionView>) -> bool {
    exists|i: int|
        0 <= i < actions.len() && (#[trigger] actions[i]).action == SyncActionType::UpdateColumn
}

/// Whether the board has to be saved after a sync: unless it was a dry
/// run, if some card was moved.
pub fn needs_save(actions: &Vec<SyncAction>, dry_run: bool) -> (r: bool)
    ensures
        r == (!dry_run && moves_card(action_views(actions@))),
{
    if dry_run {
        return false;
    }
    let mut i: usize = 0;
    while i < actions.len()
        invariant
            i <= actions.len(),
            !dry_run,
            forall|j: int|
                0 <= j < i ==> (#[trigger] action_views(actions@)[j]).action
                    != SyncActionType::UpdateColumn,
        decreases actions.len() - i,
    {
        assert(action_views(actions@)[i as int] == actions[i as int]@);
        if actions[i].action == SyncActionType::UpdateColumn {
            assert(action_views(actions@)[i as int].action == SyncActionType::UpdateColumn);
            return true;
        }
        i += 1;
    }
    false
}

} // verus!
