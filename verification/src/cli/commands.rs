//! What each command does to a board, and what it says. Loading the board
//! before and saving it after is the caller's part.
//!
//! A command addresses a card by a token: a number is the card's 1-based
//! rank among the cards that are not archived, anything else its
//! identifier.

use crate::clock::{fresh_id, now, Timestamp, ID_LEN};
use crate::edits::{
    archived, assigned, deleted, demoted, has_label, hoisted, moved, placed, relabelled,
    siblings_have_room, with_label, without_label,
};
use crate::error::{KukError, KukErrorView};
use crate::listing::{as_ints, list_cards, listing, Scope};
use crate::model::board::{
    column_has_room, has_column, lemma_position_exists, position, resolved, Board, BoardView,
    Column, ColumnView,
};
use crate::model::card::{new_card, opt_view, Card, CardView};
use crate::model::index::{GlobalIndex, IndexEntryView};
use crate::text::{
    concat, decimal, decimal_digits, join, joined, str_eq, to_uppercase, uppercase, views,
};
use vstd::prelude::*;
use vstd::string::*;

verus! {

/// What a command did: the card it was about and the line that says so.
#[derive(Debug, Clone, PartialEq)]
pub struct Report {
    pub id: String,
    pub title: String,
    pub line: String,
}

#[verifier::ext_equal]
pub struct ReportView {
    pub id: Seq<char>,
    pub title: Seq<char>,
    pub line: Seq<char>,
}

impl View for Report {
    type V = ReportView;

    open spec fn view(&self) -> ReportView {
        ReportView { id: self.id@, title: self.title@, line: self.line@ }
    }
}

/// The result of a command, mathematically.
pub open spec fn result_view(r: Result<Report, KukError>) -> Result<ReportView, KukErrorView> {
    match r {
        Ok(report) => Ok(report@),
        Err(e) => Err(e@),
    }
}

/// The card that a command changes: the first card with the identifier of
/// the card that the token addresses.
pub open spec fn located(cards: Seq<CardView>, token: Seq<char>) -> Option<int> {
    match resolved(cards, token) {
        Some(i) => position(cards, cards[i].id),
        None => None,
    }
}

/// The report on the card at `p` with the given line.
pub open spec fn report_on(cards: Seq<CardView>, p: int, line: Seq<char>) -> ReportView {
    ReportView { id: cards[p].id, title: cards[p].title, line }
}

/// The board with other cards.
pub open spec fn with_cards(b: BoardView, cards: Seq<CardView>) -> BoardView {
    BoardView { cards, ..b }
}

/// The columns a new board gets: `todo`, `doing` and `done`, without limits.
pub open spec fn standard_columns() -> Seq<ColumnView> {
    seq![
        ColumnView { name: "todo"@, wip_limit: None },
        ColumnView { name: "doing"@, wip_limit: None },
        ColumnView { name: "done"@, wip_limit: None },
    ]
}

/// The columns a new board gets.
pub fn default_columns() -> (columns: Vec<Column>)
    ensures
        crate::model::board::column_views(columns@) == standard_columns(),
{
    let mut columns: Vec<Column> = Vec::new();
    columns.push(Column { name: "todo".to_owned(), wip_limit: None });
    columns.push(Column { name: "doing".to_owned(), wip_limit: None });
    columns.push(Column { name: "done".to_owned(), wip_limit: None });
    assert(crate::model::board::column_views(columns@) =~= standard_columns());
    columns
}

/// The column a card goes to when none is named.
pub fn default_column() -> (name: String)
    ensures
        name@ == "todo"@,
{
    "todo".to_owned()
}

/// The board that is meant when none is named.
pub fn default_board_name() -> (name: String)
    ensures
        name@ == "default"@,
{
    "default".to_owned()
}

/// The board a repository starts with as its active one.
pub fn default_board() -> (name: String)
    ensures
        name@ == "default"@,
{
    "default".to_owned()
}

// ---------------------------------------------------------------------------
// What the commands do
// ---------------------------------------------------------------------------

/// `add`: a new card at the bottom of `column`.
pub open spec fn add_result(
    b: BoardView,
    title: Seq<char>,
    column: Seq<char>,
    labels: Seq<Seq<char>>,
    assignee: Option<Seq<char>>,
    id: Seq<char>,
    at: Timestamp,
) -> (BoardView, Result<ReportView, KukErrorView>) {
    if !has_column(b.columns, column) {
        (b, Err(KukErrorView::ColumnNotFound(column)))
    } else {
        let card = placed(
            b.cards,
            CardView { labels, assignee, ..new_card(id, title, column, at) },
        );
        (
            with_cards(b, b.cards.push(card)),
            Ok(ReportView { id, title, line: "Added: "@ + title + " → "@ + column }),
        )
    }
}

/// `move`: the card goes to the bottom of column `to`.
pub open spec fn move_result(b: BoardView, token: Seq<char>, to: Seq<char>, at: Timestamp) -> (
    BoardView,
    Result<ReportView, KukErrorView>,
) {
    if !has_column(b.columns, to) {
        (b, Err(KukErrorView::ColumnNotFound(to)))
    } else {
        match located(b.cards, token) {
            None => (b, Err(KukErrorView::CardNotFound(token))),
            Some(p) => (
                with_cards(b, moved(b.cards, p, to, at)),
                Ok(report_on(b.cards, p, "Moved: "@ + b.cards[p].title + " → "@ + to)),
            ),
        }
    }
}

/// `hoist`: the card goes to the top of its column.
pub open spec fn hoist_result(b: BoardView, token: Seq<char>, at: Timestamp) -> (
    BoardView,
    Result<ReportView, KukErrorView>,
) {
    match located(b.cards, token) {
        None => (b, Err(KukErrorView::CardNotFound(token))),
        Some(p) => (
            with_cards(b, hoisted(b.cards, p, at)),
            Ok(
                report_on(
                    b.cards,
                    p,
                    "Hoisted: "@ + b.cards[p].title + " to top of "@ + b.cards[p].column,
                ),
            ),
        ),
    }
}

/// `demote`: the card goes to the bottom of its column.
pub open spec fn demote_result(b: BoardView, token: Seq<char>, at: Timestamp) -> (
    BoardView,
    Result<ReportView, KukErrorView>,
) {
    match located(b.cards, token) {
        None => (b, Err(KukErrorView::CardNotFound(token))),
        Some(p) => (
            with_cards(b, demoted(b.cards, p, at)),
            Ok(
                report_on(
                    b.cards,
                    p,
                    "Demoted: "@ + b.cards[p].title + " to bottom of "@ + b.cards[p].column,
                ),
            ),
        ),
    }
}

/// `archive`: the card is archived.
pub open spec fn archive_result(b: BoardView, token: Seq<char>, at: Timestamp) -> (
    BoardView,
    Result<ReportView, KukErrorView>,
) {
    match located(b.cards, token) {
        None => (b, Err(KukErrorView::CardNotFound(token))),
        Some(p) => (
            with_cards(b, archived(b.cards, p, at)),
            Ok(report_on(b.cards, p, "Archived: "@ + b.cards[p].title)),
        ),
    }
}

/// `delete`: the card is gone for good.
pub open spec fn delete_result(b: BoardView, token: Seq<char>) -> (
    BoardView,
    Result<ReportView, KukErrorView>,
) {
    match located(b.cards, token) {
        None => (b, Err(KukErrorView::CardNotFound(token))),
        Some(p) => (
            with_cards(b, deleted(b.cards, b.cards[p].id)),
            Ok(report_on(b.cards, p, "Deleted: "@ + b.cards[p].title)),
        ),
    }
}

/// The line that shows the labels of a card.
pub open spec fn labels_line(title: Seq<char>, labels: Seq<Seq<char>>) -> Seq<char> {
    "Labels on "@ + title + ": ["@ + joined(labels, ", "@) + "]"@
}

/// `label`: with the action `add` the card gets the tag unless it has it;
/// with `remove` it loses the tag, which it must have; any other action is
/// refused.
pub open spec fn label_result(
    b: BoardView,
    token: Seq<char>,
    action: Seq<char>,
    tag: Seq<char>,
    at: Timestamp,
) -> (BoardView, Result<ReportView, KukErrorView>) {
    match located(b.cards, token) {
        None => (b, Err(KukErrorView::CardNotFound(token))),
        Some(p) => {
            let labels = b.cards[p].labels;
            if action == "add"@ {
                let now = with_label(labels, tag);
                (
                    with_cards(b, relabelled(b.cards, p, now, at)),
                    Ok(report_on(b.cards, p, labels_line(b.cards[p].title, now))),
                )
            } else if action == "remove"@ {
                if !labels.contains(tag) {
                    (b, Err(KukErrorView::LabelNotFound(tag)))
                } else {
                    let now = without_label(labels, tag);
                    (
                        with_cards(b, relabelled(b.cards, p, now, at)),
                        Ok(report_on(b.cards, p, labels_line(b.cards[p].title, now))),
                    )
                }
            } else {
                (
                    b,
                    Err(
                        KukErrorView::Other(
                            "Invalid label action: "@ + action + ". Use 'add' or 'remove'."@,
                        ),
                    ),
                )
            }
        },
    }
}

/// `assign`: the card is assigned to `user`.
pub open spec fn assign_result(b: BoardView, token: Seq<char>, user: Seq<char>, at: Timestamp) -> (
    BoardView,
    Result<ReportView, KukErrorView>,
) {
    match located(b.cards, token) {
        None => (b, Err(KukErrorView::CardNotFound(token))),
        Some(p) => (
            with_cards(b, assigned(b.cards, p, user, at)),
            Ok(report_on(b.cards, p, "Assigned "@ + b.cards[p].title + " to @"@ + user)),
        ),
    }
}

/// `add` can place its card: the board has no such column, or the column
/// has room.
pub open spec fn room_to_add(b: BoardView, column: Seq<char>) -> bool {
    has_column(b.columns, column) ==> column_has_room(b.cards, column)
}

/// `move` can place the card: the board has no such column, the token
/// addresses no card, or the column has room.
pub open spec fn room_to_move(b: BoardView, token: Seq<char>, to: Seq<char>) -> bool {
    has_column(b.columns, to) && located(b.cards, token) is Some ==> column_has_room(b.cards, to)
}

/// `hoist` can raise the siblings: the token addresses no card, or the
/// siblings of the card have room.
pub open spec fn room_to_hoist(b: BoardView, token: Seq<char>) -> bool {
    located(b.cards, token) matches Some(p) ==> siblings_have_room(b.cards, p)
}

/// `demote` can place the card: the token addresses no card, or the
/// column of the card has room.
pub open spec fn room_to_demote(b: BoardView, token: Seq<char>) -> bool {
    located(b.cards, token) matches Some(p) ==> column_has_room(b.cards, b.cards[p].column)
}

// ---------------------------------------------------------------------------
// The commands
// ---------------------------------------------------------------------------

/// The identifier and the position of the card that the token addresses.
fn locate(board: &Board, id_or_num: &str) -> (r: Result<(String, usize), KukError>)
    ensures
        match r {
            Ok((id, p)) => located(board@.cards, id_or_num@) == Some(p as int) && p
                < board.cards.len() && id@ == board@.cards[p as int].id && position(
                board@.cards,
                id@,
            ) == Some(p as int),
            Err(e) => located(board@.cards, id_or_num@) is None && e@ == KukErrorView::CardNotFound(
                id_or_num@,
            ),
        },
{
    let id = match board.resolve_card_id(id_or_num) {
        Some(id) => id,
        None => {
            return Err(KukError::CardNotFound(id_or_num.to_owned()));
        },
    };
    proof {
        let i = resolved(board@.cards, id_or_num@)->0;
        lemma_position_exists(board@.cards, id@, i);
    }
    match board.position(id.as_str()) {
        Some(p) => Ok((id, p)),
        None => Err(KukError::CardNotFound(id_or_num.to_owned())),
    }
}

/// Whether `add` can place its card in `column`.
pub fn can_add(board: &Board, column: &str) -> (r: bool)
    ensures
        r == room_to_add(board@, column@),
{
    !board.has_column(column) || board.column_has_room(column)
}

/// Whether `move` can place the card that the token addresses in `to`.
pub fn can_move(board: &Board, id_or_num: &str, to: &str) -> (r: bool)
    ensures
        r == room_to_move(board@, id_or_num@, to@),
{
    if !board.has_column(to) {
        return true;
    }
    match locate(board, id_or_num) {
        Ok(_) => board.column_has_room(to),
        Err(_) => true,
    }
}

/// Whether `hoist` can raise the siblings of the card that the token
/// addresses.
pub fn can_hoist(board: &Board, id_or_num: &str) -> (r: bool)
    ensures
        r == room_to_hoist(board@, id_or_num@),
{
    match locate(board, id_or_num) {
        Ok((id, _)) => board.can_hoist(id.as_str()),
        Err(_) => true,
    }
}

/// Whether `demote` can place the card that the token addresses.
pub fn can_demote(board: &Board, id_or_num: &str) -> (r: bool)
    ensures
        r == room_to_demote(board@, id_or_num@),
{
    match locate(board, id_or_num) {
        Ok((id, _)) => board.can_demote(id.as_str()),
        Err(_) => true,
    }
}

/// Adds a card with the given identifier, created at `at`, at the bottom
/// of `column`. Fails if the board has no such column.
pub fn add_at(
    board: &mut Board,
    title: &str,
    column: &str,
    labels: Vec<String>,
    assignee: Option<String>,
    id: String,
    at: Timestamp,
) -> (r: Result<Report, KukError>)
    requires
        room_to_add(old(board)@, column@),
    ensures
        (final(board)@, result_view(r)) == add_result(
            old(board)@,
            title@,
            column@,
            views(labels@),
            opt_view(assignee),
            id@,
            at,
        ),
{
    if !board.has_column(column) {
        return Err(KukError::ColumnNotFound(column.to_owned()));
    }
    let mut line = concat("Added: ", title);
    line.append(" → ");
    line.append(column);
    let report = Report { id: id.clone(), title: title.to_owned(), line };
    let mut card = Card::with_id(id, title, column, at);
    card.labels = labels;
    card.assignee = assignee;
    board.push_bottom(card);
    assert(board@ =~= add_result(
        old(board)@,
        title@,
        column@,
        views(labels@),
        opt_view(assignee),
        id@,
        at,
    ).0);
    assert(report@.line =~= "Added: "@ + title@ + " → "@ + column@);
    Ok(report)
}

/// Adds a new card at the bottom of `column`, with a fresh identifier,
/// created now. Fails if the board has no such column.
pub fn add(
    board: &mut Board,
    title: &str,
    column: &str,
    labels: Vec<String>,
    assignee: Option<String>,
) -> (r: Result<Report, KukError>)
    requires
        room_to_add(old(board)@, column@),
    ensures
        exists|id: Seq<char>, at: Timestamp|
            id.len() == ID_LEN && (final(board)@, result_view(r)) == #[trigger] add_result(
                old(board)@,
                title@,
                column@,
                views(labels@),
                opt_view(assignee),
                id,
                at,
            ),
{
    let at = now();
    let id = fresh_id();
    add_at(board, title, column, labels, assignee, id, at)
}

/// Moves the card to the bottom of column `to`, at time `at`. Fails if the
/// board has no such column, else if the token addresses no card.
pub fn move_card_at(board: &mut Board, id_or_num: &str, to: &str, at: Timestamp) -> (r: Result<
    Report,
    KukError,
>)
    requires
        room_to_move(old(board)@, id_or_num@, to@),
    ensures
        (final(board)@, result_view(r)) == move_result(old(board)@, id_or_num@, to@, at),
{
    if !board.has_column(to) {
        return Err(KukError::ColumnNotFound(to.to_owned()));
    }
    let (id, p) = match locate(board, id_or_num) {
        Ok(found) => found,
        Err(e) => {
            return Err(e);
        },
    };
    let title = board.cards[p].title.clone();
    let mut line = concat("Moved: ", title.as_str());
    line.append(" → ");
    line.append(to);
    board.move_to(id.as_str(), to, at);
    assert(board@ =~= move_result(old(board)@, id_or_num@, to@, at).0);
    assert(line@ =~= "Moved: "@ + title@ + " → "@ + to@);
    Ok(Report { id, title, line })
}

/// Moves the card to the bottom of column `to`, now.
pub fn move_card(board: &mut Board, id_or_num: &str, to: &str) -> (r: Result<Report, KukError>)
    requires
        room_to_move(old(board)@, id_or_num@, to@),
    ensures
        exists|at: Timestamp|
            (final(board)@, result_view(r)) == #[trigger] move_result(
                old(board)@,
                id_or_num@,
                to@,
                at,
            ),
{
    let at = now();
    move_card_at(board, id_or_num, to, at)
}

/// Hoists the card to the top of its column, at time `at`. Fails if the
/// token addresses no card.
pub fn hoist_at(board: &mut Board, id_or_num: &str, at: Timestamp) -> (r: Result<Report, KukError>)
    requires
        room_to_hoist(old(board)@, id_or_num@),
    ensures
        (final(board)@, result_view(r)) == hoist_result(old(board)@, id_or_num@, at),
{
    let (id, p) = match locate(board, id_or_num) {
        Ok(found) => found,
        Err(e) => {
            return Err(e);
        },
    };
    let title = board.cards[p].title.clone();
    let mut line = concat("Hoisted: ", title.as_str());
    line.append(" to top of ");
    line.append(board.cards[p].column.as_str());
    board.hoist(id.as_str(), at);
    assert(board@ =~= hoist_result(old(board)@, id_or_num@, at).0);
    assert(line@ =~= "Hoisted: "@ + title@ + " to top of "@ + old(board)@.cards[p as int].column);
    Ok(Report { id, title, line })
}

/// Hoists the card to the top of its column, now.
pub fn hoist(board: &mut Board, id_or_num: &str) -> (r: Result<Report, KukError>)
    requires
        room_to_hoist(old(board)@, id_or_num@),
    ensures
        exists|at: Timestamp|
            (final(board)@, result_view(r)) == #[trigger] hoist_result(
                old(board)@,
                id_or_num@,
                at,
            ),
{
    let at = now();
    hoist_at(board, id_or_num, at)
}

/// Demotes the card to the bottom of its column, at time `at`. Fails if the
/// token addresses no card.
pub fn demote_at(board: &mut Board, id_or_num: &str, at: Timestamp) -> (r: Result<
    Report,
    KukError,
>)
    requires
        room_to_demote(old(board)@, id_or_num@),
    ensures
        (final(board)@, result_view(r)) == demote_result(old(board)@, id_or_num@, at),
{
    let (id, p) = match locate(board, id_or_num) {
        Ok(found) => found,
        Err(e) => {
            return Err(e);
        },
    };
    let title = board.cards[p].title.clone();
    let mut line = concat("Demoted: ", title.as_str());
    line.append(" to bottom of ");
    line.append(board.cards[p].column.as_str());
    board.demote(id.as_str(), at);
    assert(board@ =~= demote_result(old(board)@, id_or_num@, at).0);
    assert(line@ =~= "Demoted: "@ + title@ + " to bottom of "@ + old(board)@.cards[p as int].column);
    Ok(Report { id, title, line })
}

/// Demotes the card to the bottom of its column, now.
pub fn demote(board: &mut Board, id_or_num: &str) -> (r: Result<Report, KukError>)
    requires
        room_to_demote(old(board)@, id_or_num@),
    ensures
        exists|at: Timestamp|
            (final(board)@, result_view(r)) == #[trigger] demote_result(
                old(board)@,
                id_or_num@,
                at,
            ),
{
    let at = now();
    demote_at(board, id_or_num, at)
}

/// Archives the card, at time `at`. Fails if the token addresses no card.
pub fn archive_at(board: &mut Board, id_or_num: &str, at: Timestamp) -> (r: Result<
    Report,
    KukError,
>)
    ensures
        (final(board)@, result_view(r)) == archive_result(old(board)@, id_or_num@, at),
{
    let (id, p) = match locate(board, id_or_num) {
        Ok(found) => found,
        Err(e) => {
            return Err(e);
        },
    };
    let title = board.cards[p].title.clone();
    let line = concat("Archived: ", title.as_str());
    board.archive(id.as_str(), at);
    assert(board@ =~= archive_result(old(board)@, id_or_num@, at).0);
    Ok(Report { id, title, line })
}

/// Archives the card, now.
pub fn archive(board: &mut Board, id_or_num: &str) -> (r: Result<Report, KukError>)
    ensures
        exists|at: Timestamp|
            (final(board)@, result_view(r)) == #[trigger] archive_result(
                old(board)@,
                id_or_num@,
                at,
            ),
{
    let at = now();
    archive_at(board, id_or_num, at)
}

/// Deletes the card for good. Fails if the token addresses no card.
pub fn delete(board: &mut Board, id_or_num: &str) -> (r: Result<Report, KukError>)
    ensures
        (final(board)@, result_view(r)) == delete_result(old(board)@, id_or_num@),
{
    let (id, p) = match locate(board, id_or_num) {
        Ok(found) => found,
        Err(e) => {
            return Err(e);
        },
    };
    let title = board.cards[p].title.clone();
    let line = concat("Deleted: ", title.as_str());
    board.delete(id.as_str());
    assert(board@ =~= delete_result(old(board)@, id_or_num@).0);
    Ok(Report { id, title, line })
}

/// Adds a label to the card or removes one, at time `at`. Fails if the
/// token addresses no card, if the action is neither `add` nor `remove`,
/// and if the card does not have the label to remove.
pub fn label_at(board: &mut Board, id_or_num: &str, action: &str, tag: &str, at: Timestamp) -> (r:
    Result<Report, KukError>)
    ensures
        (final(board)@, result_view(r)) == label_result(
            old(board)@,
            id_or_num@,
            action@,
            tag@,
            at,
        ),
{
    let (id, p) = match locate(board, id_or_num) {
        Ok(found) => found,
        Err(e) => {
            return Err(e);
        },
    };
    if str_eq(action, "add") {
        board.add_label(id.as_str(), tag, at);
    } else if str_eq(action, "remove") {
        assert(board@.cards[p as int] == board.cards[p as int]@);
        if !has_label(&board.cards[p].labels, tag) {
            return Err(KukError::LabelNotFound(tag.to_owned()));
        }
        board.remove_label(id.as_str(), tag, at);
    } else {
        let mut text = concat("Invalid label action: ", action);
        text.append(". Use 'add' or 'remove'.");
        assert(text@ =~= "Invalid label action: "@ + action@ + ". Use 'add' or 'remove'."@);
        return Err(KukError::Other(text));
    }
    assert(board@.cards.len() == old(board)@.cards.len());
    assert(board@.cards[p as int] == board.cards[p as int]@);
    let title = board.cards[p].title.clone();
    let mut line = concat("Labels on ", title.as_str());
    line.append(": [");
    line.append(join(&board.cards[p].labels, ", ").as_str());
    line.append("]");
    assert(board@ =~= label_result(old(board)@, id_or_num@, action@, tag@, at).0);
    assert(line@ =~= labels_line(title@, board@.cards[p as int].labels));
    Ok(Report { id, title, line })
}

/// Adds a label to the card or removes one, now.
pub fn label(board: &mut Board, id_or_num: &str, action: &str, tag: &str) -> (r: Result<
    Report,
    KukError,
>)
    ensures
        exists|at: Timestamp|
            (final(board)@, result_view(r)) == #[trigger] label_result(
                old(board)@,
                id_or_num@,
                action@,
                tag@,
                at,
            ),
{
    let at = now();
    label_at(board, id_or_num, action, tag, at)
}

/// Assigns the card to `user`, at time `at`. Fails if the token addresses
/// no card.
pub fn assign_at(board: &mut Board, id_or_num: &str, user: &str, at: Timestamp) -> (r: Result<
    Report,
    KukError,
>)
    ensures
        (final(board)@, result_view(r)) == assign_result(old(board)@, id_or_num@, user@, at),
{
    let (id, p) = match locate(board, id_or_num) {
        Ok(found) => found,
        Err(e) => {
            return Err(e);
        },
    };
    let title = board.cards[p].title.clone();
    let mut line = concat("Assigned ", title.as_str());
    line.append(" to @");
    line.append(user);
    board.assign(id.as_str(), user, at);
    assert(board@ =~= assign_result(old(board)@, id_or_num@, user@, at).0);
    assert(line@ =~= "Assigned "@ + title@ + " to @"@ + user@);
    Ok(Report { id, title, line })
}

/// Assigns the card to `user`, now.
pub fn assign(board: &mut Board, id_or_num: &str, user: &str) -> (r: Result<Report, KukError>)
    ensures
        exists|at: Timestamp|
            (final(board)@, result_view(r)) == #[trigger] assign_result(
                old(board)@,
                id_or_num@,
                user@,
                at,
            ),
{
    let at = now();
    assign_at(board, id_or_num, user, at)
}

// ---------------------------------------------------------------------------
// Listings
// ---------------------------------------------------------------------------

/// The line for one board in the list of boards: a star marks the active
/// one.
pub open spec fn board_line(name: Seq<char>, active: Seq<char>) -> Seq<char> {
    if name == active {
        "* "@ + name
    } else {
        "  "@ + name
    }
}

/// The list of boards, one line each, the active board marked.
pub fn board(boards: &Vec<String>, active: &str) -> (lines: Vec<String>)
    ensures
        views(lines@) == Seq::new(boards.len() as nat, |i: int| board_line(boards[i]@, active@)),
{
    let mut lines: Vec<String> = Vec::new();
    let mut i: usize = 0;
    while i < boards.len()
        invariant
            i <= boards.len(),
            lines.len() == i,
            forall|k: int| 0 <= k < i ==> (#[trigger] lines[k])@ == board_line(boards[k]@, active@),
        decreases boards.len() - i,
    {
        let name = boards[i].as_str();
        lines.push(concat(if str_eq(name, active) {
            "* "
        } else {
            "  "
        }, name));
        i += 1;
    }
    assert(views(lines@) =~= Seq::new(
        boards.len() as nat,
        |i: int| board_line(boards[i]@, active@),
    ));
    lines
}

/// The line for one project.
pub open spec fn project_line(entry: IndexEntryView) -> Seq<char> {
    "  "@ + entry.name + " → "@ + entry.path
}

/// What the list of projects says: a line for each, or that there are none.
pub open spec fn project_lines(index: Seq<IndexEntryView>) -> Seq<Seq<char>> {
    if index.len() == 0 {
        seq!["No kuk projects found. Run `kuk init` in a repo."@]
    } else {
        Seq::new(index.len(), |i: int| project_line(index[i]))
    }
}

/// The list of projects, one line each.
pub fn projects(index: &GlobalIndex) -> (lines: Vec<String>)
    ensures
        views(lines@) == project_lines(index@),
{
    let mut lines: Vec<String> = Vec::new();
    if index.projects.len() == 0 {
        lines.push("No kuk projects found. Run `kuk init` in a repo.".to_owned());
        assert(views(lines@) =~= project_lines(index@));
        return lines;
    }
    let mut i: usize = 0;
    while i < index.projects.len()
        invariant
            i <= index.projects.len(),
            lines.len() == i,
            forall|k: int| 0 <= k < i ==> (#[trigger] lines[k])@ == project_line(index@[k]),
        decreases index.projects.len() - i,
    {
        let entry = &index.projects[i];
        assert(index@[i as int] == entry@);
        let mut line = concat("  ", entry.name.as_str());
        line.append(" → ");
        line.append(entry.path.as_str());
        assert(line@ =~= project_line(entry@));
        lines.push(line);
        i += 1;
    }
    assert(views(lines@) =~= project_lines(index@));
    lines
}

/// The labels of a card in a listing, or nothing where it has none.
pub open spec fn listed_labels(labels: Seq<Seq<char>>) -> Seq<char> {
    if labels.len() == 0 {
        Seq::empty()
    } else {
        " ["@ + joined(labels, ", "@) + "]"@
    }
}

/// The line of a card in a listing: its rank in the column, its title,
/// labels and assignee.
pub open spec fn card_line(rank: nat, card: CardView) -> Seq<char> {
    "  "@ + decimal_digits(rank) + ". "@ + card.title + listed_labels(card.labels) + match card.assignee {
        Some(a) => " @"@ + a,
        None => Seq::empty(),
    }
}

/// The head of a column in a listing.
pub open spec fn column_head(column: ColumnView, count: nat) -> Seq<char> {
    head_of(uppercase(column.name), count, column.wip_limit)
}

/// The head of a column whose name in capitals is `upper`: between rules
/// the name, the number of cards, and that number against the limit if
/// there is one.
pub open spec fn head_of(upper: Seq<char>, count: nat, limit: Option<u32>) -> Seq<char> {
    "── "@ + upper + " ("@ + decimal_digits(count) + ")"@ + match limit {
        Some(l) => " ["@ + decimal_digits(count) + "/"@ + decimal_digits(l as nat) + "]"@,
        None => Seq::empty(),
    } + "──"@
}

/// The cards of column `col` that are not archived, by ascending order.
pub open spec fn column_list(b: BoardView, col: int) -> Seq<int> {
    listing(b.cards, Scope { column: Some(b.columns[col].name), query: None })
}

/// The lines of the first `n` cards of a list.
pub open spec fn card_lines(b: BoardView, list: Seq<int>, n: int) -> Seq<Seq<char>> {
    Seq::new(n as nat, |j: int| card_line((j + 1) as nat, b.cards[list[j]]))
}

/// The lines of column `col` in a listing: the head, a line for each card,
/// and an empty line.
pub open spec fn column_lines(b: BoardView, col: int) -> Seq<Seq<char>> {
    let list = column_list(b, col);
    seq![column_head(b.columns[col], list.len())] + card_lines(b, list, list.len() as int)
        + seq![Seq::empty()]
}

/// The lines of the first `n` columns in a listing.
pub open spec fn list_lines(b: BoardView, n: int) -> Seq<Seq<char>>
    decreases n,
{
    if n <= 0 {
        Seq::empty()
    } else {
        list_lines(b, n - 1) + column_lines(b, n - 1)
    }
}

fn list_card(rank: usize, card: &Card) -> (line: String)
    ensures
        line@ == card_line(rank as nat, card@),
{
    let mut line = concat("  ", decimal(rank).as_str());
    line.append(". ");
    line.append(card.title.as_str());
    if card.labels.len() > 0 {
        line.append(" [");
        line.append(join(&card.labels, ", ").as_str());
        line.append("]");
    }
    if let Some(a) = &card.assignee {
        line.append(" @");
        line.append(a.as_str());
    }
    assert(line@ =~= card_line(rank as nat, card@));
    line
}

/// The head of a column in a listing, from its name in capitals, the number
/// of cards it lists and its limit.
pub fn listing_head(upper: &str, count: usize, limit: Option<u32>) -> (r: String)
    ensures
        r@ == head_of(upper@, count as nat, limit),
{
    let listed = decimal(count);
    let mut head = concat("── ", upper);
    head.append(" (");
    head.append(listed.as_str());
    head.append(")");
    if let Some(limit) = limit {
        head.append(" [");
        head.append(listed.as_str());
        head.append("/");
        head.append(decimal(limit as usize).as_str());
        head.append("]");
    }
    head.append("──");
    assert(head@ =~= head_of(upper@, count as nat, limit));
    head
}

/// The board as text: column by column the head, the cards that are not
/// archived by ascending order, each with its rank, and an empty line.
pub fn list(board: &Board) -> (lines: Vec<String>)
    ensures
        views(lines@) == list_lines(board@, board@.columns.len() as int),
{
    let mut lines: Vec<String> = Vec::new();
    let mut col: usize = 0;
    assert(views(lines@) =~= Seq::<Seq<char>>::empty());
    while col < board.columns.len()
        invariant
            col <= board.columns.len(),
            views(lines@) == list_lines(board@, col as int),
        decreases board.columns.len() - col,
    {
        let column = &board.columns[col];
        assert(board@.columns[col as int] == column@);
        let shown = list_cards(&board.cards, Some(column.name.as_str()), None);
        let head = listing_head(
            to_uppercase(column.name.as_str()).as_str(),
            shown.len(),
            column.wip_limit,
        );
        let ghost before = views(lines@);
        let ghost list = column_list(board@, col as int);
        lines.push(head);
        let ghost head_line = column_head(column@, shown.len() as nat);
        let mut j: usize = 0;
        assert(views(lines@) =~= before + seq![head_line] + card_lines(board@, list, 0));
        while j < shown.len()
            invariant
                j <= shown.len(),
                as_ints(shown@) == list,
                list == column_list(board@, col as int),
                forall|k: int| 0 <= k < shown.len() ==> shown[k] < board.cards.len(),
                views(lines@) == before + seq![head_line] + card_lines(board@, list, j as int),
            decreases shown.len() - j,
        {
            assert(as_ints(shown@)[j as int] == shown[j as int]);
            assert(board@.cards[shown[j as int] as int] == board.cards[shown[j as int] as int]@);
            let ghost mid = views(lines@);
            let line = list_card(j + 1, &board.cards[shown[j]]);
            lines.push(line);
            proof {
                assert(views(lines@) =~= mid.push(line@));
                assert(card_lines(board@, list, j + 1) =~= card_lines(board@, list, j as int).push(
                    line@,
                ));
                assert(views(lines@) =~= before + seq![head_line] + card_lines(
                    board@,
                    list,
                    j + 1,
                ));
            }
            j += 1;
        }
        let ghost mid = views(lines@);
        lines.push(String::new());
        proof {
            assert(shown.len() == list.len());
            assert(views(lines@) =~= mid.push(Seq::<char>::empty()));
            assert(views(lines@) =~= before + column_lines(board@, col as int));
        }
        col += 1;
    }
    lines
}

} // verus!
