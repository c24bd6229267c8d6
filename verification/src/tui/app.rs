//! The editing engine: one board, the state of the screen, and the rules by
//! which a key changes both.
//!
//! The engine does no input or output. Where a key calls for the board to
//! be saved or loaded it says so with a [`Request`]; the caller carries the
//! request out and hands the outcome back as a [`Reply`], which may lead to
//! the next request.

use crate::clock::{fresh_id, now, Timestamp, ID_LEN};
use crate::edits::{archived, deleted, demoted, hoisted, moved, placed, siblings_have_room};
use crate::listing::{
    as_ints, count_in_scope, in_scope, is_listing, lemma_listing_exists, list_cards, listing,
    Scope,
};
use crate::model::board::{
    column_has_room, lemma_next_order, lemma_position_exists, position, Board, BoardView,
};
use crate::model::card::{new_card, Card};
use crate::model::config::{RepoConfig, RepoConfigView};
use crate::text::{concat, pop_char, push_char, str_eq, views};
use crate::tui::keys::{is_force_quit, KeyCode, KeyEvent};
use vstd::prelude::*;

verus! {

/// What the keys currently mean.
#[derive(Debug, Clone, Copy, PartialEq, Eq, Structural)]
pub enum Mode {
    Normal,
    Insert,
    Search,
    Help,
    Confirm,
    BoardPicker,
}

/// What a confirmation would carry out.
#[derive(Debug, Clone, Copy, PartialEq, Eq, Structural)]
pub enum ConfirmAction {
    Delete,
}

/// What the engine asks of the persistence gateway.
#[derive(Debug, Clone, PartialEq)]
pub enum Request {
    /// Nothing to do.
    Nothing,
    /// Save the engine's board as it is now.
    SaveBoard,
    /// Load the repository's configuration.
    LoadConfig,
    /// Save this configuration.
    SaveConfig(RepoConfig),
    /// Load the board of this name.
    LoadBoard(String),
    /// List the names of the boards there are.
    ListBoards,
}

pub enum RequestView {
    Nothing,
    SaveBoard,
    LoadConfig,
    SaveConfig(RepoConfigView),
    LoadBoard(Seq<char>),
    ListBoards,
}

impl View for Request {
    type V = RequestView;

    open spec fn view(&self) -> RequestView {
        match self {
            Request::Nothing => RequestView::Nothing,
            Request::SaveBoard => RequestView::SaveBoard,
            Request::LoadConfig => RequestView::LoadConfig,
            Request::SaveConfig(c) => RequestView::SaveConfig(c@),
            Request::LoadBoard(n) => RequestView::LoadBoard(n@),
            Request::ListBoards => RequestView::ListBoards,
        }
    }
}

/// The outcome of a request; a failure comes as the text to show.
#[derive(Debug)]
pub enum Reply {
    /// The board was saved, or not.
    Saved(Result<(), String>),
    /// The configuration that was loaded.
    Config(Result<RepoConfig, String>),
    /// The configuration was saved, or not.
    ConfigSaved(Result<(), String>),
    /// The board that was loaded.
    Board(Result<Board, String>),
    /// The names of the boards.
    Boards(Result<Vec<String>, String>),
}

pub enum ReplyView {
    Saved(Result<(), Seq<char>>),
    Config(Result<RepoConfigView, Seq<char>>),
    ConfigSaved(Result<(), Seq<char>>),
    Board(Result<BoardView, Seq<char>>),
    Boards(Result<Seq<Seq<char>>, Seq<char>>),
}

impl View for Reply {
    type V = ReplyView;

    open spec fn view(&self) -> ReplyView {
        match self {
            Reply::Saved(Ok(_)) => ReplyView::Saved(Ok(())),
            Reply::Saved(Err(e)) => ReplyView::Saved(Err(e@)),
            Reply::Config(Ok(c)) => ReplyView::Config(Ok(c@)),
            Reply::Config(Err(e)) => ReplyView::Config(Err(e@)),
            Reply::ConfigSaved(Ok(_)) => ReplyView::ConfigSaved(Ok(())),
            Reply::ConfigSaved(Err(e)) => ReplyView::ConfigSaved(Err(e@)),
            Reply::Board(Ok(b)) => ReplyView::Board(Ok(b@)),
            Reply::Board(Err(e)) => ReplyView::Board(Err(e@)),
            Reply::Boards(Ok(l)) => ReplyView::Boards(Ok(views(l@))),
            Reply::Boards(Err(e)) => ReplyView::Boards(Err(e@)),
        }
    }
}

/// The reply the engine waits for, and what it is for.
#[derive(Debug, Clone, PartialEq)]
pub enum Waiting {
    /// No request is out.
    Nothing,
    /// The board is being saved after an edit.
    Saved,
    /// The board is being saved after a card with this title was added.
    Added(String),
    /// A reload has asked for the configuration.
    ReloadConfig,
    /// A reload has asked for the board of this name.
    ReloadBoard(String),
    /// The board picker has asked for the names of the boards.
    Boards,
    /// A switch has asked for the board of this name.
    SwitchBoard(String),
    /// A switch has loaded this board under this name and has asked for the
    /// configuration.
    SwitchConfig(String, Board),
    /// A switch is saving this configuration, which names this board.
    SwitchSaved(RepoConfig, Board),
}

pub enum WaitingView {
    Nothing,
    Saved,
    Added(Seq<char>),
    ReloadConfig,
    ReloadBoard(Seq<char>),
    Boards,
    SwitchBoard(Seq<char>),
    SwitchConfig(Seq<char>, BoardView),
    SwitchSaved(RepoConfigView, BoardView),
}

impl View for Waiting {
    type V = WaitingView;

    open spec fn view(&self) -> WaitingView {
        match self {
            Waiting::Nothing => WaitingView::Nothing,
            Waiting::Saved => WaitingView::Saved,
            Waiting::Added(t) => WaitingView::Added(t@),
            Waiting::ReloadConfig => WaitingView::ReloadConfig,
            Waiting::ReloadBoard(n) => WaitingView::ReloadBoard(n@),
            Waiting::Boards => WaitingView::Boards,
            Waiting::SwitchBoard(n) => WaitingView::SwitchBoard(n@),
            Waiting::SwitchConfig(n, b) => WaitingView::SwitchConfig(n@, b@),
            Waiting::SwitchSaved(c, b) => WaitingView::SwitchSaved(c@, b@),
        }
    }
}

/// The engine's state: the board and what the screen shows of it.
pub struct App {
    pub board: Board,
    pub mode: Mode,
    pub selected_col: usize,
    pub selected_row: usize,
    pub input_buf: String,
    pub search_buf: String,
    pub search_active: bool,
    pub message: Option<String>,
    pub should_quit: bool,
    pub pending_confirm: Option<ConfirmAction>,
    pub pending_g: bool,
    pub board_list: Vec<String>,
    pub board_selected: usize,
    pub waiting: Waiting,
}

#[verifier::ext_equal]
pub struct AppView {
    pub board: BoardView,
    pub mode: Mode,
    pub selected_col: int,
    pub selected_row: int,
    pub input_buf: Seq<char>,
    pub search_buf: Seq<char>,
    pub search_active: bool,
    pub message: Option<Seq<char>>,
    pub should_quit: bool,
    pub pending_confirm: Option<ConfirmAction>,
    pub pending_g: bool,
    pub board_list: Seq<Seq<char>>,
    pub board_selected: int,
    pub waiting: WaitingView,
}

impl View for App {
    type V = AppView;

    open spec fn view(&self) -> AppView {
        AppView {
            board: self.board@,
            mode: self.mode,
            selected_col: self.selected_col as int,
            selected_row: self.selected_row as int,
            input_buf: self.input_buf@,
            search_buf: self.search_buf@,
            search_active: self.search_active,
            message: match self.message {
                Some(m) => Some(m@),
                None => None,
            },
            should_quit: self.should_quit,
            pending_confirm: self.pending_confirm,
            pending_g: self.pending_g,
            board_list: views(self.board_list@),
            board_selected: self.board_selected as int,
            waiting: self.waiting@,
        }
    }
}

// ---------------------------------------------------------------------------
// What is on screen
// ---------------------------------------------------------------------------

/// The query that filters the lists: the search text while the search is on
/// and the text is not empty.
pub open spec fn query_of(a: AppView) -> Option<Seq<char>> {
    if a.search_active && a.search_buf.len() > 0 {
        Some(a.search_buf)
    } else {
        None
    }
}

/// The cards that column `col` shows, as positions in the board's cards; no
/// cards where there is no such column.
pub open spec fn visible(a: AppView, col: int) -> Seq<int> {
    if 0 <= col < a.board.columns.len() {
        listing(
            a.board.cards,
            Scope { column: Some(a.board.columns[col].name), query: query_of(a) },
        )
    } else {
        Seq::empty()
    }
}

/// The position in the board's cards of the selected card, if the selection
/// is on a card.
pub open spec fn current(a: AppView) -> Option<int> {
    let shown = visible(a, a.selected_col);
    if 0 <= a.selected_row < shown.len() {
        Some(shown[a.selected_row])
    } else {
        None
    }
}

/// The card that an edit of the selected card changes: the first card that
/// has the selected card's identifier.
pub open spec fn target(a: AppView) -> Option<int> {
    match current(a) {
        Some(i) => position(a.board.cards, a.board.cards[i].id),
        None => None,
    }
}

/// The row brought back into the list of the selected column: the last row
/// if it was past it, row zero in an empty list.
pub open spec fn clamped(a: AppView) -> AppView {
    let count = visible(a, a.selected_col).len() as int;
    AppView {
        selected_row: if count == 0 {
            0
        } else if a.selected_row >= count {
            count - 1
        } else {
            a.selected_row
        },
        ..a
    }
}

/// The selection on the last row of the selected column; unchanged where
/// the column shows nothing.
pub open spec fn at_bottom(a: AppView) -> AppView {
    let count = visible(a, a.selected_col).len() as int;
    AppView { selected_row: if count > 0 { count - 1 } else { a.selected_row }, ..a }
}

/// The state with other cards on the board.
pub open spec fn with_cards(a: AppView, cards: Seq<crate::model::card::CardView>) -> AppView {
    AppView { board: BoardView { cards, ..a.board }, ..a }
}

/// The request that goes with what the engine waits for.
pub open spec fn request_for(w: WaitingView) -> RequestView {
    match w {
        WaitingView::Nothing => RequestView::Nothing,
        WaitingView::Saved => RequestView::SaveBoard,
        WaitingView::Added(_) => RequestView::SaveBoard,
        WaitingView::ReloadConfig => RequestView::LoadConfig,
        WaitingView::ReloadBoard(name) => RequestView::LoadBoard(name),
        WaitingView::Boards => RequestView::ListBoards,
        WaitingView::SwitchBoard(name) => RequestView::LoadBoard(name),
        WaitingView::SwitchConfig(_, _) => RequestView::LoadConfig,
        WaitingView::SwitchSaved(config, _) => RequestView::SaveConfig(config),
    }
}

// ---------------------------------------------------------------------------
// The rules
// ---------------------------------------------------------------------------

/// The selected card moved to the column `to_col`, if there is such a
/// column and a card is selected.
pub open spec fn moved_to_column(a: AppView, to_col: int, at: Timestamp) -> AppView {
    if 0 <= to_col < a.board.columns.len() {
        match target(a) {
            Some(p) => {
                let to = a.board.columns[to_col].name;
                clamped(
                    AppView {
                        message: Some("Moved → "@ + to),
                        waiting: WaitingView::Saved,
                        ..with_cards(a, moved(a.board.cards, p, to, at))
                    },
                )
            },
            None => a,
        }
    } else {
        a
    }
}

/// The selected card hoisted to the top of its column.
pub open spec fn hoisted_current(a: AppView, at: Timestamp) -> AppView {
    match target(a) {
        Some(p) => AppView {
            selected_row: 0,
            message: Some("Hoisted to top."@),
            waiting: WaitingView::Saved,
            ..with_cards(a, hoisted(a.board.cards, p, at))
        },
        None => a,
    }
}

/// The selected card demoted to the bottom of its column.
pub open spec fn demoted_current(a: AppView, at: Timestamp) -> AppView {
    match target(a) {
        Some(p) => AppView {
            message: Some("Demoted to bottom."@),
            waiting: WaitingView::Saved,
            ..at_bottom(with_cards(a, demoted(a.board.cards, p, at)))
        },
        None => a,
    }
}

/// The selected card archived.
pub open spec fn archived_current(a: AppView, at: Timestamp) -> AppView {
    match target(a) {
        Some(p) => clamped(
            AppView {
                message: Some("Archived: "@ + a.board.cards[p].title),
                waiting: WaitingView::Saved,
                ..with_cards(a, archived(a.board.cards, p, at))
            },
        ),
        None => a,
    }
}

/// The selected card deleted for good.
pub open spec fn deleted_current(a: AppView) -> AppView {
    match target(a) {
        Some(p) => AppView {
            message: Some("Deleted: "@ + a.board.cards[p].title),
            waiting: WaitingView::Saved,
            ..clamped(with_cards(a, deleted(a.board.cards, a.board.cards[p].id)))
        },
        None => a,
    }
}

/// What a key does in normal mode.
pub open spec fn normal_step(a: AppView, code: KeyCode, at: Timestamp) -> AppView {
    let count = visible(a, a.selected_col).len() as int;
    let b = AppView { pending_g: false, ..a };
    match code {
        KeyCode::Char('q') => AppView { should_quit: true, ..a },
        KeyCode::Char('j') | KeyCode::Down => if count > 0 && a.selected_row < count - 1 {
            AppView { selected_row: a.selected_row + 1, ..b }
        } else {
            b
        },
        KeyCode::Char('k') | KeyCode::Up => if a.selected_row > 0 {
            AppView { selected_row: a.selected_row - 1, ..b }
        } else {
            b
        },
        KeyCode::Char('h') | KeyCode::Left => if a.selected_col > 0 {
            clamped(AppView { selected_col: a.selected_col - 1, ..b })
        } else {
            b
        },
        KeyCode::Char('l') | KeyCode::Right => if a.selected_col + 1 < a.board.columns.len() {
            clamped(AppView { selected_col: a.selected_col + 1, ..b })
        } else {
            b
        },
        KeyCode::Char('g') => if a.pending_g {
            AppView { selected_row: 0, ..b }
        } else {
            AppView { pending_g: true, ..a }
        },
        KeyCode::Char('G') => at_bottom(b),
        KeyCode::Char('a') => AppView {
            mode: Mode::Insert,
            input_buf: Seq::empty(),
            message: Some("Add card (Enter to save, Esc to cancel):"@),
            ..b
        },
        KeyCode::Char('d') => if a.pending_g {
            b
        } else if current(a) is Some {
            AppView {
                mode: Mode::Confirm,
                pending_confirm: Some(ConfirmAction::Delete),
                message: Some("Delete this card? (y/n)"@),
                ..a
            }
        } else {
            a
        },
        KeyCode::Char('>') | KeyCode::Char('L') => moved_to_column(b, a.selected_col + 1, at),
        KeyCode::Char('<') | KeyCode::Char('H') => moved_to_column(b, a.selected_col - 1, at),
        KeyCode::Char('K') => hoisted_current(b, at),
        KeyCode::Char('J') => demoted_current(b, at),
        KeyCode::Char('x') => archived_current(b, at),
        KeyCode::Char('/') => AppView {
            mode: Mode::Search,
            search_buf: Seq::empty(),
            search_active: true,
            message: Some("Search:"@),
            ..b
        },
        KeyCode::Esc => clamped(
            AppView { search_active: false, search_buf: Seq::empty(), message: None, ..b },
        ),
        KeyCode::Char('?') => AppView { mode: Mode::Help, ..b },
        KeyCode::Char('r') => AppView { waiting: WaitingView::ReloadConfig, ..b },
        KeyCode::Char('b') => AppView { waiting: WaitingView::Boards, ..b },
        _ => b,
    }
}

/// What a key does while a card's title is typed.
pub open spec fn insert_step(a: AppView, code: KeyCode, at: Timestamp, id: Seq<char>) -> AppView {
    match code {
        KeyCode::Esc => AppView { mode: Mode::Normal, input_buf: Seq::empty(), message: None, ..a },
        KeyCode::Enter => {
            let done = AppView { mode: Mode::Normal, input_buf: Seq::empty(), ..a };
            if a.input_buf.len() > 0 && 0 <= a.selected_col < a.board.columns.len() {
                let column = a.board.columns[a.selected_col].name;
                let card = placed(a.board.cards, new_card(id, a.input_buf, column, at));
                AppView {
                    waiting: WaitingView::Added(a.input_buf),
                    ..with_cards(done, a.board.cards.push(card))
                }
            } else {
                done
            }
        },
        KeyCode::Backspace => AppView {
            input_buf: if a.input_buf.len() > 0 {
                a.input_buf.drop_last()
            } else {
                a.input_buf
            },
            ..a
        },
        KeyCode::Char(c) => AppView { input_buf: a.input_buf.push(c), ..a },
        _ => a,
    }
}

/// What a key does while the search text is typed.
pub open spec fn search_step(a: AppView, code: KeyCode) -> AppView {
    match code {
        KeyCode::Esc => clamped(
            AppView {
                mode: Mode::Normal,
                search_active: false,
                search_buf: Seq::empty(),
                message: None,
                ..a
            },
        ),
        KeyCode::Enter => AppView { mode: Mode::Normal, message: None, selected_row: 0, ..a },
        KeyCode::Backspace => AppView {
            search_buf: if a.search_buf.len() > 0 {
                a.search_buf.drop_last()
            } else {
                a.search_buf
            },
            selected_row: 0,
            ..a
        },
        KeyCode::Char(c) => AppView { search_buf: a.search_buf.push(c), selected_row: 0, ..a },
        _ => a,
    }
}

/// What a key does while the help is shown.
pub open spec fn help_step(a: AppView, code: KeyCode) -> AppView {
    match code {
        KeyCode::Esc | KeyCode::Char('q') | KeyCode::Char('?') => AppView {
            mode: Mode::Normal,
            ..a
        },
        _ => a,
    }
}

/// What a key does while a confirmation is asked for. A `y` carries the
/// pending action out; the message then says what was deleted, if anything
/// was. Any other key drops the action.
pub open spec fn confirm_step(a: AppView, code: KeyCode) -> AppView {
    let quiet = AppView { mode: Mode::Normal, pending_confirm: None, message: None, ..a };
    match code {
        KeyCode::Char('y') | KeyCode::Char('Y') => match a.pending_confirm {
            Some(ConfirmAction::Delete) => deleted_current(quiet),
            None => quiet,
        },
        _ => quiet,
    }
}

/// What a key does in the board picker.
pub open spec fn picker_step(a: AppView, code: KeyCode) -> AppView {
    match code {
        KeyCode::Esc | KeyCode::Char('q') => AppView { mode: Mode::Normal, message: None, ..a },
        KeyCode::Char('j') | KeyCode::Down => if a.board_selected + 1 < a.board_list.len() {
            AppView { board_selected: a.board_selected + 1, ..a }
        } else {
            a
        },
        KeyCode::Char('k') | KeyCode::Up => if a.board_selected > 0 {
            AppView { board_selected: a.board_selected - 1, ..a }
        } else {
            a
        },
        KeyCode::Enter => if 0 <= a.board_selected < a.board_list.len() {
            let name = a.board_list[a.board_selected];
            if name == a.board.name {
                AppView { mode: Mode::Normal, message: None, ..a }
            } else {
                AppView { mode: Mode::Normal, waiting: WaitingView::SwitchBoard(name), ..a }
            }
        } else {
            AppView { mode: Mode::Normal, ..a }
        },
        _ => a,
    }
}

/// The state after a key, given the time and the identifier that a new card
/// would get. The force-quit key asks to quit whatever the mode; every
/// other key goes by the rules of the mode. A key drops whatever reply was
/// still awaited.
pub open spec fn step(a: AppView, key: KeyEvent, at: Timestamp, id: Seq<char>) -> AppView {
    let b = AppView { waiting: WaitingView::Nothing, ..a };
    if is_force_quit(key) {
        AppView { should_quit: true, ..b }
    } else {
        match a.mode {
            Mode::Normal => normal_step(b, key.code, at),
            Mode::Insert => insert_step(b, key.code, at, id),
            Mode::Search => search_step(b, key.code),
            Mode::Help => help_step(b, key.code),
            Mode::Confirm => confirm_step(b, key.code),
            Mode::BoardPicker => picker_step(b, key.code),
        }
    }
}

/// The selected card can move to column `col`: there is no such column, no
/// card is selected, or that column has room.
pub open spec fn room_to_move_to(a: AppView, col: int) -> bool {
    0 <= col < a.board.columns.len() && target(a) is Some ==> column_has_room(
        a.board.cards,
        a.board.columns[col].name,
    )
}

/// The selected card can be hoisted: no card is selected, or its siblings
/// have room.
pub open spec fn room_to_hoist_current(a: AppView) -> bool {
    target(a) matches Some(p) ==> siblings_have_room(a.board.cards, p)
}

/// The selected card can be demoted: no card is selected, or its column
/// has room.
pub open spec fn room_to_demote_current(a: AppView) -> bool {
    target(a) matches Some(p) ==> column_has_room(a.board.cards, a.board.cards[p].column)
}

/// The orders that a key of normal mode raises have room: a move needs it
/// in the column the card goes to, a hoist for the siblings of the card, a
/// demote in the column of the card. No other key raises an order.
pub open spec fn normal_room(a: AppView, code: KeyCode) -> bool {
    match code {
        KeyCode::Char('>') | KeyCode::Char('L') => room_to_move_to(a, a.selected_col + 1),
        KeyCode::Char('<') | KeyCode::Char('H') => room_to_move_to(a, a.selected_col - 1),
        KeyCode::Char('K') => room_to_hoist_current(a),
        KeyCode::Char('J') => room_to_demote_current(a),
        _ => true,
    }
}

/// The card that Enter adds has room in the selected column; no other key
/// of insert mode needs any, nor does Enter where it adds no card.
pub open spec fn insert_room(a: AppView, code: KeyCode) -> bool {
    code == KeyCode::Enter && a.input_buf.len() > 0 && 0 <= a.selected_col
        < a.board.columns.len() ==> column_has_room(
        a.board.cards,
        a.board.columns[a.selected_col].name,
    )
}

/// The key can be applied without an order passing the highest one there
/// is: whatever order it raises has room.
pub open spec fn room_for(a: AppView, key: KeyEvent) -> bool {
    is_force_quit(key) || match a.mode {
        Mode::Normal => normal_room(a, key.code),
        Mode::Insert => insert_room(a, key.code),
        _ => true,
    }
}

/// `i` is the place of the first occurrence of `name` in `list`.
pub open spec fn is_first_named(list: Seq<Seq<char>>, name: Seq<char>, i: int) -> bool {
    &&& 0 <= i < list.len()
    &&& list[i] == name
    &&& forall|j: int| 0 <= j < i ==> #[trigger] list[j] != name
}

/// The place of `name` in `list`: that of its first occurrence, zero if it
/// does not occur.
pub open spec fn place_of(list: Seq<Seq<char>>, name: Seq<char>) -> int {
    if exists|i: int| is_first_named(list, name, i) {
        choose|i: int| is_first_named(list, name, i)
    } else {
        0
    }
}

/// The text of a failure, after what failed.
pub open spec fn failure(what: Seq<char>, error: Seq<char>) -> Option<Seq<char>> {
    Some(what + error)
}

/// The state after a reply. A reply that the engine does not wait for
/// changes nothing but that the engine then waits for none.
pub open spec fn answered(a: AppView, reply: ReplyView) -> AppView {
    let b = AppView { waiting: WaitingView::Nothing, ..a };
    match (a.waiting, reply) {
        (WaitingView::Saved, ReplyView::Saved(Err(e))) => AppView {
            message: failure("Save failed: "@, e),
            ..b
        },
        (WaitingView::Added(title), ReplyView::Saved(Ok(_))) => {
            let count = visible(a, a.selected_col).len() as int;
            AppView {
                message: Some("Added: "@ + title),
                selected_row: if count > 0 {
                    count - 1
                } else {
                    0
                },
                ..b
            }
        },
        (WaitingView::Added(_), ReplyView::Saved(Err(e))) => AppView {
            message: failure("Save failed: "@, e),
            ..b
        },
        (WaitingView::ReloadConfig, ReplyView::Config(Ok(config))) => AppView {
            waiting: WaitingView::ReloadBoard(config.default_board),
            ..a
        },
        (WaitingView::ReloadConfig, ReplyView::Config(Err(e))) => AppView {
            message: failure("Reload failed: "@, e),
            ..b
        },
        (WaitingView::ReloadBoard(_), ReplyView::Board(Ok(board))) => clamped(
            AppView { board, message: Some("Board reloaded."@), ..b },
        ),
        (WaitingView::ReloadBoard(_), ReplyView::Board(Err(e))) => AppView {
            message: failure("Reload failed: "@, e),
            ..b
        },
        (WaitingView::Boards, ReplyView::Boards(Ok(list))) => AppView {
            board_list: list,
            board_selected: place_of(list, a.board.name),
            mode: Mode::BoardPicker,
            message: Some("Switch board (Enter to select, Esc to cancel):"@),
            ..b
        },
        (WaitingView::Boards, ReplyView::Boards(Err(e))) => AppView {
            message: failure("Failed to list boards: "@, e),
            ..b
        },
        (WaitingView::SwitchBoard(name), ReplyView::Board(Ok(board))) => AppView {
            waiting: WaitingView::SwitchConfig(name, board),
            ..a
        },
        (WaitingView::SwitchBoard(_), ReplyView::Board(Err(e))) => AppView {
            message: failure("Load board failed: "@, e),
            ..b
        },
        (WaitingView::SwitchConfig(name, board), ReplyView::Config(Ok(config))) => AppView {
            waiting: WaitingView::SwitchSaved(
                RepoConfigView { default_board: name, ..config },
                board,
            ),
            ..a
        },
        (WaitingView::SwitchConfig(_, _), ReplyView::Config(Err(e))) => AppView {
            message: failure("Load config failed: "@, e),
            ..b
        },
        (WaitingView::SwitchSaved(config, board), ReplyView::ConfigSaved(Ok(_))) => AppView {
            board,
            selected_col: 0,
            selected_row: 0,
            search_active: false,
            search_buf: Seq::empty(),
            message: Some("Switched to board: "@ + config.default_board),
            ..b
        },
        (WaitingView::SwitchSaved(_, _), ReplyView::ConfigSaved(Err(e))) => AppView {
            message: failure("Save config failed: "@, e),
            ..b
        },
        _ => b,
    }
}

/// The state an engine starts in.
pub open spec fn initial(board: BoardView) -> AppView {
    AppView {
        board,
        mode: Mode::Normal,
        selected_col: 0,
        selected_row: 0,
        input_buf: Seq::empty(),
        search_buf: Seq::empty(),
        search_active: false,
        message: None,
        should_quit: false,
        pending_confirm: None,
        pending_g: false,
        board_list: Seq::empty(),
        board_selected: 0,
        waiting: WaitingView::Nothing,
    }
}

// ---------------------------------------------------------------------------
// The engine
// ---------------------------------------------------------------------------

/// The place of the first occurrence of `name` in `list`, zero if there is
/// none.
fn find_place(list: &Vec<String>, name: &str) -> (r: usize)
    ensures
        r as int == place_of(views(list@), name@),
{
    let mut i: usize = 0;
    while i < list.len()
        invariant
            i <= list.len(),
            forall|j: int| 0 <= j < i ==> #[trigger] views(list@)[j] != name@,
        decreases list.len() - i,
    {
        if str_eq(list[i].as_str(), name) {
            assert(is_first_named(views(list@), name@, i as int));
            return i;
        }
        i += 1;
    }
    0
}

impl App {
    /// An engine on `board`: normal mode, the selection on the first row of
    /// the first column, no search, no message.
    pub fn new(board: Board) -> (app: App)
        ensures
            app@ == initial(board@),
    {
        let app = App {
            board,
            mode: Mode::Normal,
            selected_col: 0,
            selected_row: 0,
            input_buf: String::new(),
            search_buf: String::new(),
            search_active: false,
            message: None,
            should_quit: false,
            pending_confirm: None,
            pending_g: false,
            board_list: Vec::new(),
            board_selected: 0,
            waiting: Waiting::Nothing,
        };
        assert(app@ =~= initial(board@));
        app
    }

    /// The request that goes with what the engine waits for.
    pub fn request(&self) -> (r: Request)
        ensures
            r@ == request_for(self@.waiting),
    {
        match &self.waiting {
            Waiting::Nothing => Request::Nothing,
            Waiting::Saved => Request::SaveBoard,
            Waiting::Added(_) => Request::SaveBoard,
            Waiting::ReloadConfig => Request::LoadConfig,
            Waiting::ReloadBoard(name) => Request::LoadBoard(name.clone()),
            Waiting::Boards => Request::ListBoards,
            Waiting::SwitchBoard(name) => Request::LoadBoard(name.clone()),
            Waiting::SwitchConfig(_, _) => Request::LoadConfig,
            Waiting::SwitchSaved(config, _) => Request::SaveConfig(
                RepoConfig {
                    version: config.version.clone(),
                    default_board: config.default_board.clone(),
                },
            ),
        }
    }

    /// Begins a reload of the active board: the engine then waits for the
    /// configuration, which names that board.
    pub fn reload_board(&mut self) -> (r: Request)
        ensures
            final(self)@ == (AppView { waiting: WaitingView::ReloadConfig, ..old(self)@ }),
            r@ == RequestView::LoadConfig,
    {
        self.waiting = Waiting::ReloadConfig;
        Request::LoadConfig
    }

    /// Asks for the board to be saved; a failure will show as a message.
    pub fn save_board(&mut self) -> (r: Request)
        ensures
            final(self)@ == (AppView { waiting: WaitingView::Saved, ..old(self)@ }),
            r@ == RequestView::SaveBoard,
    {
        self.waiting = Waiting::Saved;
        Request::SaveBoard
    }

    /// The query that filters the lists, if one does.
    fn query(&self) -> (q: Option<&str>)
        ensures
            match q {
                Some(text) => query_of(self@) == Some(text@),
                None => query_of(self@) is None,
            },
    {
        if self.search_active && !self.search_buf.as_str().is_empty() {
            Some(self.search_buf.as_str())
        } else {
            None
        }
    }

    /// The cards that column `col` shows, as positions in the board's cards.
    pub fn visible(&self, col: usize) -> (list: Vec<usize>)
        ensures
            as_ints(list@) == visible(self@, col as int),
            forall|k: int| 0 <= k < list.len() ==> list[k] < self.board.cards.len(),
            list.len() > 0 ==> col < self.board.columns.len(),
    {
        if col >= self.board.columns.len() {
            let list: Vec<usize> = Vec::new();
            assert(as_ints(list@) =~= Seq::<int>::empty());
            return list;
        }
        let query = self.query();
        let column = self.board.columns[col].name.as_str();
        assert(self@.board.columns[col as int].name == column@);
        list_cards(&self.board.cards, Some(column), query)
    }

    /// The cards that column `col_idx` shows: those of the column that are
    /// not archived and, while a search is on, match it, by ascending order.
    pub fn column_cards(&self, col_idx: usize) -> (cards: Vec<&Card>)
        ensures
            cards.len() == visible(self@, col_idx as int).len(),
            forall|k: int|
                0 <= k < cards.len() ==> 0 <= visible(self@, col_idx as int)[k]
                    < self.board.cards.len() && *#[trigger] cards[k] == self.board.cards[visible(
                    self@,
                    col_idx as int,
                )[k]],
    {
        let list = self.visible(col_idx);
        let mut out: Vec<&Card> = Vec::new();
        let mut k: usize = 0;
        while k < list.len()
            invariant
                k <= list.len(),
                out.len() == k,
                as_ints(list@) == visible(self@, col_idx as int),
                forall|j: int| 0 <= j < list.len() ==> list[j] < self.board.cards.len(),
                forall|j: int| 0 <= j < k ==> *#[trigger] out[j] == self.board.cards[list[j] as int],
            decreases list.len() - k,
        {
            out.push(&self.board.cards[list[k]]);
            k += 1;
        }
        assert forall|j: int| 0 <= j < out.len() implies 0 <= visible(self@, col_idx as int)[j]
            < self.board.cards.len() && *#[trigger] out[j] == self.board.cards[visible(
            self@,
            col_idx as int,
        )[j]] by {
            assert(as_ints(list@)[j] == list[j]);
        }
        out
    }

    /// The position in the board's cards of the selected card.
    pub fn current_index(&self) -> (r: Option<usize>)
        ensures
            match r {
                Some(i) => current(self@) == Some(i as int) && i < self.board.cards.len(),
                None => current(self@) is None,
            },
    {
        let list = self.visible(self.selected_col);
        if self.selected_row < list.len() {
            assert(as_ints(list@)[self.selected_row as int] == list[self.selected_row as int]);
            Some(list[self.selected_row])
        } else {
            None
        }
    }

    /// The selected card.
    pub fn current_card(&self) -> (r: Option<&Card>)
        ensures
            match r {
                Some(card) => current(self@) matches Some(i) && 0 <= i < self.board.cards.len()
                    && *card == self.board.cards[i],
                None => current(self@) is None,
            },
    {
        match self.current_index() {
            Some(i) => Some(&self.board.cards[i]),
            None => None,
        }
    }

    /// The identifier of the selected card.
    pub fn current_card_id(&self) -> (r: Option<String>)
        ensures
            match r {
                Some(id) => current(self@) matches Some(i) && 0 <= i < self.board.cards.len()
                    && id@ == self@.board.cards[i].id,
                None => current(self@) is None,
            },
    {
        match self.current_index() {
            Some(i) => Some(self.board.cards[i].id.clone()),
            None => None,
        }
    }

    fn clamp_row(&mut self)
        ensures
            final(self)@ == clamped(old(self)@),
    {
        let count = self.visible(self.selected_col).len();
        if count == 0 {
            self.selected_row = 0;
        } else if self.selected_row >= count {
            self.selected_row = count - 1;
        }
    }

    fn go_bottom(&mut self)
        ensures
            final(self)@ == at_bottom(old(self)@),
    {
        let count = self.visible(self.selected_col).len();
        if count > 0 {
            self.selected_row = count - 1;
        }
    }

    fn move_card_to(&mut self, to_col: usize, at: Timestamp)
        requires
            room_to_move_to(old(self)@, to_col as int),
        ensures
            final(self)@ == moved_to_column(old(self)@, to_col as int, at),
    {
        if to_col >= self.board.columns.len() {
            return;
        }
        if let Some(id) = self.current_card_id() {
            let to = self.board.columns[to_col].name.clone();
            match self.board.move_to(id.as_str(), to.as_str(), at) {
                Some(_) => {
                    self.message = Some(concat("Moved → ", to.as_str()));
                    self.waiting = Waiting::Saved;
                    self.clamp_row();
                },
                None => {},
            }
        }
        assert(self@ =~= moved_to_column(old(self)@, to_col as int, at));
    }

    /// Moves the selected card to the bottom of the next column, with `at`
    /// as the time of the move; `request` then tells what to ask of the
    /// gateway. Nothing changes in the last column or where no card is
    /// selected.
    pub fn move_card_right(&mut self, at: Timestamp)
        requires
            room_to_move_to(old(self)@, old(self)@.selected_col + 1),
        ensures
            final(self)@ == moved_to_column(old(self)@, old(self)@.selected_col + 1, at),
    {
        if self.selected_col >= self.board.columns.len() {
            return;
        }
        self.move_card_to(self.selected_col + 1, at);
    }

    /// Moves the selected card to the bottom of the column before, with
    /// `at` as the time of the move; `request` then tells what to ask of
    /// the gateway. Nothing changes in the first column or where no card is
    /// selected.
    pub fn move_card_left(&mut self, at: Timestamp)
        requires
            room_to_move_to(old(self)@, old(self)@.selected_col - 1),
        ensures
            final(self)@ == moved_to_column(old(self)@, old(self)@.selected_col - 1, at),
    {
        if self.selected_col == 0 {
            return;
        }
        self.move_card_to(self.selected_col - 1, at);
    }

    fn hoist_card(&mut self, at: Timestamp)
        requires
            room_to_hoist_current(old(self)@),
        ensures
            final(self)@ == hoisted_current(old(self)@, at),
    {
        if let Some(id) = self.current_card_id() {
            match self.board.hoist(id.as_str(), at) {
                Some(_) => {
                    self.selected_row = 0;
                    self.message = Some("Hoisted to top.".to_owned());
                    self.waiting = Waiting::Saved;
                },
                None => {},
            }
        }
        assert(self@ =~= hoisted_current(old(self)@, at));
    }

    fn demote_card(&mut self, at: Timestamp)
        requires
            room_to_demote_current(old(self)@),
        ensures
            final(self)@ == demoted_current(old(self)@, at),
    {
        if let Some(id) = self.current_card_id() {
            match self.board.demote(id.as_str(), at) {
                Some(_) => {
                    self.go_bottom();
                    self.message = Some("Demoted to bottom.".to_owned());
                    self.waiting = Waiting::Saved;
                },
                None => {},
            }
        }
        assert(self@ =~= demoted_current(old(self)@, at));
    }

    fn archive_card(&mut self, at: Timestamp)
        ensures
            final(self)@ == archived_current(old(self)@, at),
    {
        if let Some(id) = self.current_card_id() {
            match self.board.position(id.as_str()) {
                Some(p) => {
                    let title = self.board.cards[p].title.clone();
                    self.board.archive(id.as_str(), at);
                    self.message = Some(concat("Archived: ", title.as_str()));
                    self.waiting = Waiting::Saved;
                    self.clamp_row();
                },
                None => {},
            }
        }
        assert(self@ =~= archived_current(old(self)@, at));
    }

    fn delete_current_card(&mut self)
        ensures
            final(self)@ == deleted_current(old(self)@),
    {
        if let Some(id) = self.current_card_id() {
            match self.board.position(id.as_str()) {
                Some(p) => {
                    let title = self.board.cards[p].title.clone();
                    self.board.delete(id.as_str());
                    self.clamp_row();
                    self.message = Some(concat("Deleted: ", title.as_str()));
                    self.waiting = Waiting::Saved;
                },
                None => {},
            }
        }
        assert(self@ =~= deleted_current(old(self)@));
    }

    fn handle_normal(&mut self, code: KeyCode, at: Timestamp)
        requires
            normal_room(old(self)@, code),
        ensures
            final(self)@ == normal_step(old(self)@, code, at),
    {
        match code {
            KeyCode::Char('q') => {
                self.should_quit = true;
            },
            KeyCode::Char('j') | KeyCode::Down => {
                self.pending_g = false;
                let count = self.visible(self.selected_col).len();
                if count > 0 && self.selected_row < count - 1 {
                    self.selected_row += 1;
                }
            },
            KeyCode::Char('k') | KeyCode::Up => {
                self.pending_g = false;
                if self.selected_row > 0 {
                    self.selected_row -= 1;
                }
            },
            KeyCode::Char('h') | KeyCode::Left => {
                self.pending_g = false;
                if self.selected_col > 0 {
                    self.selected_col -= 1;
                    self.clamp_row();
                }
            },
            KeyCode::Char('l') | KeyCode::Right => {
                self.pending_g = false;
                if self.selected_col < self.board.columns.len() && self.selected_col + 1
                    < self.board.columns.len() {
                    self.selected_col += 1;
                    self.clamp_row();
                }
            },
            KeyCode::Char('g') => {
                if self.pending_g {
                    self.selected_row = 0;
                    self.pending_g = false;
                } else {
                    self.pending_g = true;
                }
            },
            KeyCode::Char('G') => {
                self.pending_g = false;
                self.go_bottom();
            },
            KeyCode::Char('a') => {
                self.pending_g = false;
                self.mode = Mode::Insert;
                self.input_buf = String::new();
                self.message = Some("Add card (Enter to save, Esc to cancel):".to_owned());
            },
            KeyCode::Char('d') => {
                if self.pending_g {
                    self.pending_g = false;
                } else if self.current_index().is_some() {
                    self.mode = Mode::Confirm;
                    self.pending_confirm = Some(ConfirmAction::Delete);
                    self.message = Some("Delete this card? (y/n)".to_owned());
                }
            },
            KeyCode::Char('>') | KeyCode::Char('L') => {
                self.pending_g = false;
                self.move_card_right(at);
            },
            KeyCode::Char('<') | KeyCode::Char('H') => {
                self.pending_g = false;
                self.move_card_left(at);
            },
            KeyCode::Char('K') => {
                self.pending_g = false;
                self.hoist_card(at);
            },
            KeyCode::Char('J') => {
                self.pending_g = false;
                self.demote_card(at);
            },
            KeyCode::Char('x') => {
                self.pending_g = false;
                self.archive_card(at);
            },
            KeyCode::Char('/') => {
                self.pending_g = false;
                self.mode = Mode::Search;
                self.search_buf = String::new();
                self.search_active = true;
                self.message = Some("Search:".to_owned());
            },
            KeyCode::Esc => {
                self.pending_g = false;
                self.search_active = false;
                self.search_buf = String::new();
                self.message = None;
                self.clamp_row();
            },
            KeyCode::Char('?') => {
                self.pending_g = false;
                self.mode = Mode::Help;
            },
            KeyCode::Char('r') => {
                self.pending_g = false;
                self.waiting = Waiting::ReloadConfig;
            },
            KeyCode::Char('b') => {
                self.pending_g = false;
                self.waiting = Waiting::Boards;
            },
            _ => {
                self.pending_g = false;
            },
        }
        assert(self@ =~= normal_step(old(self)@, code, at));
    }

    fn handle_insert(&mut self, code: KeyCode, at: Timestamp, id: String)
        requires
            insert_room(old(self)@, code),
        ensures
            final(self)@ == insert_step(old(self)@, code, at, id@),
    {
        match code {
            KeyCode::Esc => {
                self.mode = Mode::Normal;
                self.input_buf = String::new();
                self.message = None;
            },
            KeyCode::Enter => {
                if !self.input_buf.as_str().is_empty() && self.selected_col
                    < self.board.columns.len() {
                    let column = self.board.columns[self.selected_col].name.clone();
                    let card = Card::with_id(id, self.input_buf.as_str(), column.as_str(), at);
                    self.board.push_bottom(card);
                    let mut title = String::new();
                    core::mem::swap(&mut title, &mut self.input_buf);
                    self.waiting = Waiting::Added(title);
                }
                self.input_buf = String::new();
                self.mode = Mode::Normal;
            },
            KeyCode::Backspace => {
                pop_char(&mut self.input_buf);
            },
            KeyCode::Char(c) => {
                push_char(&mut self.input_buf, c);
            },
            _ => {},
        }
        assert(self@ =~= insert_step(old(self)@, code, at, id@));
    }

    fn handle_search(&mut self, code: KeyCode)
        ensures
            final(self)@ == search_step(old(self)@, code),
    {
        match code {
            KeyCode::Esc => {
                self.mode = Mode::Normal;
                self.search_active = false;
                self.search_buf = String::new();
                self.message = None;
                self.clamp_row();
            },
            KeyCode::Enter => {
                self.mode = Mode::Normal;
                self.message = None;
                self.selected_row = 0;
            },
            KeyCode::Backspace => {
                pop_char(&mut self.search_buf);
                self.selected_row = 0;
            },
            KeyCode::Char(c) => {
                push_char(&mut self.search_buf, c);
                self.selected_row = 0;
            },
            _ => {},
        }
        assert(self@ =~= search_step(old(self)@, code));
    }

    fn handle_help(&mut self, code: KeyCode)
        ensures
            final(self)@ == help_step(old(self)@, code),
    {
        match code {
            KeyCode::Esc | KeyCode::Char('q') | KeyCode::Char('?') => {
                self.mode = Mode::Normal;
            },
            _ => {},
        }
    }

    fn handle_confirm(&mut self, code: KeyCode)
        ensures
            final(self)@ == confirm_step(old(self)@, code),
    {
        let pending = self.pending_confirm;
        self.pending_confirm = None;
        self.mode = Mode::Normal;
        self.message = None;
        match code {
            KeyCode::Char('y') | KeyCode::Char('Y') => {
                match pending {
                    Some(ConfirmAction::Delete) => {
                        self.delete_current_card();
                    },
                    None => {},
                }
            },
            _ => {},
        }
    }

    fn handle_board_picker(&mut self, code: KeyCode)
        ensures
            final(self)@ == picker_step(old(self)@, code),
    {
        match code {
            KeyCode::Esc | KeyCode::Char('q') => {
                self.mode = Mode::Normal;
                self.message = None;
            },
            KeyCode::Char('j') | KeyCode::Down => {
                if self.board_selected < self.board_list.len() && self.board_selected + 1
                    < self.board_list.len() {
                    self.board_selected += 1;
                }
            },
            KeyCode::Char('k') | KeyCode::Up => {
                if self.board_selected > 0 {
                    self.board_selected -= 1;
                }
            },
            KeyCode::Enter => {
                if self.board_selected < self.board_list.len() {
                    let name = self.board_list[self.board_selected].clone();
                    assert(name@ == self@.board_list[self.board_selected as int]);
                    if name == self.board.name {
                        self.message = None;
                    } else {
                        self.waiting = Waiting::SwitchBoard(name);
                    }
                }
                self.mode = Mode::Normal;
            },
            _ => {},
        }
        assert(self@ =~= picker_step(old(self)@, code));
    }

    /// Whether the selected card can move to column `to_col` without an
    /// order passing the highest one there is: true as well where there is
    /// no such column or no card is selected, since nothing moves then.
    pub fn can_move_to(&self, to_col: usize) -> (r: bool)
        ensures
            r == room_to_move_to(self@, to_col as int),
    {
        if to_col >= self.board.columns.len() {
            return true;
        }
        match self.current_card_id() {
            Some(id) => self.board.can_move(id.as_str(), self.board.columns[to_col].name.as_str()),
            None => true,
        }
    }

    /// Whether the key can be applied without an order passing the highest
    /// one there is. Only a key that moves, hoists, demotes or adds a card
    /// can fail this, and only for want of room in the one column it
    /// writes to.
    pub fn has_room_for(&self, key: KeyEvent) -> (r: bool)
        ensures
            r == room_for(self@, key),
    {
        if key.is_force_quit() {
            return true;
        }
        match self.mode {
            Mode::Normal => match key.code {
                KeyCode::Char('>') | KeyCode::Char('L') => {
                    if self.selected_col < self.board.columns.len() {
                        self.can_move_to(self.selected_col + 1)
                    } else {
                        true
                    }
                },
                KeyCode::Char('<') | KeyCode::Char('H') => {
                    if self.selected_col > 0 {
                        self.can_move_to(self.selected_col - 1)
                    } else {
                        true
                    }
                },
                KeyCode::Char('K') => match self.current_card_id() {
                    Some(id) => self.board.can_hoist(id.as_str()),
                    None => true,
                },
                KeyCode::Char('J') => match self.current_card_id() {
                    Some(id) => self.board.can_demote(id.as_str()),
                    None => true,
                },
                _ => true,
            },
            Mode::Insert => {
                if key.code == KeyCode::Enter && !self.input_buf.as_str().is_empty()
                    && self.selected_col < self.board.columns.len() {
                    self.board.column_has_room(self.board.columns[self.selected_col].name.as_str())
                } else {
                    true
                }
            },
            _ => true,
        }
    }

    /// Applies one key, with `at` as the current time and `id` as the
    /// identifier for a card that the key may add. Returns what the caller
    /// must ask of the gateway next.
    pub fn step(&mut self, key: KeyEvent, at: Timestamp, id: String) -> (r: Request)
        requires
            room_for(old(self)@, key),
        ensures
            final(self)@ == step(old(self)@, key, at, id@),
            r@ == request_for(final(self)@.waiting),
    {
        self.waiting = Waiting::Nothing;
        if key.is_force_quit() {
            self.should_quit = true;
        } else {
            match self.mode {
                Mode::Normal => self.handle_normal(key.code, at),
                Mode::Insert => self.handle_insert(key.code, at, id),
                Mode::Search => self.handle_search(key.code),
                Mode::Help => self.handle_help(key.code),
                Mode::Confirm => self.handle_confirm(key.code),
                Mode::BoardPicker => self.handle_board_picker(key.code),
            }
        }
        self.request()
    }

    /// Whether the key adds a card, which then needs a fresh identifier.
    fn adds_card(&self, key: KeyEvent) -> (r: bool)
        ensures
            r == adds_a_card(self@, key),
            r ==> forall|at: Timestamp, id: Seq<char>|
                (#[trigger] step(self@, key, at, id)).board.cards == self@.board.cards.push(
                    added_card(self@, at, id),
                ),
            !r ==> forall|at: Timestamp, a: Seq<char>, b: Seq<char>|
                #![trigger step(self@, key, at, a), step(self@, key, at, b)]
                step(self@, key, at, a) == step(self@, key, at, b),
    {
        match self.mode {
            Mode::Insert => key.code == KeyCode::Enter && !self.input_buf.as_str().is_empty()
                && self.selected_col < self.board.columns.len(),
            _ => false,
        }
    }

    /// Applies one key. The time is read from the clock, and a card that
    /// the key adds gets a fresh identifier. Returns what the caller must
    /// ask of the gateway next.
    pub fn handle_key(&mut self, key: KeyEvent) -> (r: Request)
        requires
            room_for(old(self)@, key),
        ensures
            exists|at: Timestamp, id: Seq<char>|
                id.len() == ID_LEN && final(self)@ == #[trigger] step(old(self)@, key, at, id),
            r@ == request_for(final(self)@.waiting),
    {
        let at = now();
        let id = if self.adds_card(key) {
            fresh_id()
        } else {
            String::new()
        };
        let ghost given = id@;
        let ghost shown = if given.len() == ID_LEN {
            given
        } else {
            Seq::new(ID_LEN as nat, |i: int| '0')
        };
        let r = self.step(key, at, id);
        assert(self@ == step(old(self)@, key, at, shown));
        r
    }

    /// Takes in the outcome of the request that is out. Returns what the
    /// caller must ask of the gateway next.
    pub fn handle_reply(&mut self, reply: Reply) -> (r: Request)
        ensures
            final(self)@ == answered(old(self)@, reply@),
            r@ == request_for(final(self)@.waiting),
    {
        let mut waiting = Waiting::Nothing;
        core::mem::swap(&mut waiting, &mut self.waiting);
        match waiting {
            Waiting::Nothing => {},
            Waiting::Saved => {
                if let Reply::Saved(Err(e)) = reply {
                    self.message = Some(concat("Save failed: ", e.as_str()));
                }
            },
            Waiting::Added(title) => {
                match reply {
                    Reply::Saved(Ok(_)) => {
                        self.message = Some(concat("Added: ", title.as_str()));
                        let count = self.visible(self.selected_col).len();
                        self.selected_row = if count > 0 {
                            count - 1
                        } else {
                            0
                        };
                    },
                    Reply::Saved(Err(e)) => {
                        self.message = Some(concat("Save failed: ", e.as_str()));
                    },
                    _ => {},
                }
            },
            Waiting::ReloadConfig => {
                match reply {
                    Reply::Config(Ok(config)) => {
                        self.waiting = Waiting::ReloadBoard(config.default_board);
                    },
                    Reply::Config(Err(e)) => {
                        self.message = Some(concat("Reload failed: ", e.as_str()));
                    },
                    _ => {},
                }
            },
            Waiting::ReloadBoard(_) => {
                match reply {
                    Reply::Board(Ok(board)) => {
                        self.board = board;
                        self.message = Some("Board reloaded.".to_owned());
                        self.clamp_row();
                    },
                    Reply::Board(Err(e)) => {
                        self.message = Some(concat("Reload failed: ", e.as_str()));
                    },
                    _ => {},
                }
            },
            Waiting::Boards => {
                match reply {
                    Reply::Boards(Ok(list)) => {
                        self.board_selected = find_place(&list, self.board.name.as_str());
                        self.board_list = list;
                        self.mode = Mode::BoardPicker;
                        self.message = Some(
                            "Switch board (Enter to select, Esc to cancel):".to_owned(),
                        );
                    },
                    Reply::Boards(Err(e)) => {
                        self.message = Some(concat("Failed to list boards: ", e.as_str()));
                    },
                    _ => {},
                }
            },
            Waiting::SwitchBoard(name) => {
                match reply {
                    Reply::Board(Ok(board)) => {
                        self.waiting = Waiting::SwitchConfig(name, board);
                    },
                    Reply::Board(Err(e)) => {
                        self.message = Some(concat("Load board failed: ", e.as_str()));
                    },
                    _ => {},
                }
            },
            Waiting::SwitchConfig(name, board) => {
                match reply {
                    Reply::Config(Ok(config)) => {
                        self.waiting = Waiting::SwitchSaved(
                            config.with_board(name.as_str()),
                            board,
                        );
                    },
                    Reply::Config(Err(e)) => {
                        self.message = Some(concat("Load config failed: ", e.as_str()));
                    },
                    _ => {},
                }
            },
            Waiting::SwitchSaved(config, board) => {
                match reply {
                    Reply::ConfigSaved(Ok(_)) => {
                        self.board = board;
                        self.selected_col = 0;
                        self.selected_row = 0;
                        self.search_active = false;
                        self.search_buf = String::new();
                        self.message = Some(
                            concat("Switched to board: ", config.default_board.as_str()),
                        );
                    },
                    Reply::ConfigSaved(Err(e)) => {
                        self.message = Some(concat("Save config failed: ", e.as_str()));
                    },
                    _ => {},
                }
            },
        }
        assert(self@ =~= answered(old(self)@, reply@));
        self.request()
    }
}

/// A clamped row is a row of the selected column's list, or row zero where
/// that list is empty; a row that was in the list stays where it was.
pub proof fn law_clamped_row(a: AppView)
    requires
        a.selected_row >= 0,
    ensures
        ({
            let count = visible(a, a.selected_col).len();
            let row = clamped(a).selected_row;
            &&& visible(clamped(a), a.selected_col) == visible(a, a.selected_col)
            &&& count == 0 ==> row == 0
            &&& count > 0 ==> 0 <= row < count
            &&& a.selected_row < count ==> row == a.selected_row
        }),
{
}

/// When the last step of a switch succeeds, the board that was loaded is
/// held, the selection is on the first row of the first column and no search
/// filters the lists.
pub proof fn law_switch_resets(a: AppView, config: RepoConfigView, board: BoardView)
    requires
        a.waiting == WaitingView::SwitchSaved(config, board),
    ensures
        answered(a, ReplyView::ConfigSaved(Ok(()))).board == board,
        answered(a, ReplyView::ConfigSaved(Ok(()))).selected_col == 0,
        answered(a, ReplyView::ConfigSaved(Ok(()))).selected_row == 0,
        !answered(a, ReplyView::ConfigSaved(Ok(()))).search_active,
        query_of(answered(a, ReplyView::ConfigSaved(Ok(())))) is None,
{
}

/// The reply reports a failure.
pub open spec fn is_failure(reply: ReplyView) -> bool {
    match reply {
        ReplyView::Saved(r) => r is Err,
        ReplyView::Config(r) => r is Err,
        ReplyView::ConfigSaved(r) => r is Err,
        ReplyView::Board(r) => r is Err,
        ReplyView::Boards(r) => r is Err,
    }
}

/// A switch is under way.
pub open spec fn is_switching(w: WaitingView) -> bool {
    w is SwitchBoard || w is SwitchConfig || w is SwitchSaved
}

/// A switch that fails at any step ends there: nothing more is asked of
/// the gateway, and the board, the selection and the search are as they
/// were before the switch began.
pub proof fn law_failed_switch_keeps_board(a: AppView, reply: ReplyView)
    requires
        is_switching(a.waiting),
        is_failure(reply),
    ensures
        answered(a, reply) == (AppView {
            waiting: WaitingView::Nothing,
            message: answered(a, reply).message,
            ..a
        }),
        request_for(answered(a, reply).waiting) == RequestView::Nothing,
{
}

/// No configuration is saved before the board it names has been loaded.
/// The gateway is asked to save a configuration only in answer to the
/// configuration it has loaded for a switch, and that is asked for only in
/// answer to the board the switch has loaded. No key asks for either.
pub proof fn law_save_follows_load(
    a: AppView,
    reply: ReplyView,
    key: KeyEvent,
    at: Timestamp,
    id: Seq<char>,
)
    ensures
        !(request_for(step(a, key, at, id).waiting) is SaveConfig),
        !(step(a, key, at, id).waiting is SwitchConfig),
        request_for(answered(a, reply).waiting) is SaveConfig ==> a.waiting is SwitchConfig
            && reply matches ReplyView::Config(Ok(_)),
        answered(a, reply).waiting is SwitchConfig ==> a.waiting is SwitchBoard
            && reply matches ReplyView::Board(Ok(_)),
{
}

/// Enter in the picker on another board, when a step fails: the engine
/// asks for the board first and for the configuration second, and asks to
/// save only third. Whichever step fails, it then asks nothing more, shows
/// the failure, and holds the board, the selection and the search that it
/// held before. Where the board or the configuration did not load, nothing
/// was asked to be saved.
pub proof fn law_failed_switch(
    a: AppView,
    key: KeyEvent,
    at: Timestamp,
    id: Seq<char>,
    board: BoardView,
    config: RepoConfigView,
    e: Seq<char>,
)
    requires
        a.mode == Mode::BoardPicker,
        key.code == KeyCode::Enter,
        0 <= a.board_selected < a.board_list.len(),
        a.board_list[a.board_selected] != a.board.name,
    ensures
        ({
            let name = a.board_list[a.board_selected];
            let asked = step(a, key, at, id);
            let idle = AppView { mode: Mode::Normal, waiting: WaitingView::Nothing, ..a };
            let loaded = answered(asked, ReplyView::Board(Ok(board)));
            let read = answered(loaded, ReplyView::Config(Ok(config)));
            &&& request_for(asked.waiting) == RequestView::LoadBoard(name)
            &&& answered(asked, ReplyView::Board(Err(e))) == (AppView {
                message: failure("Load board failed: "@, e),
                ..idle
            })
            &&& request_for(loaded.waiting) == RequestView::LoadConfig
            &&& answered(loaded, ReplyView::Config(Err(e))) == (AppView {
                message: failure("Load config failed: "@, e),
                ..idle
            })
            &&& request_for(read.waiting) == RequestView::SaveConfig(
                RepoConfigView { default_board: name, ..config },
            )
            &&& answered(read, ReplyView::ConfigSaved(Err(e))) == (AppView {
                message: failure("Save config failed: "@, e),
                ..idle
            })
        }),
{
}

/// A key that would move the selected card right does nothing at all while
/// the selection is in the last column: no field of the board or of the
/// selection changes, and nothing is asked of the gateway, so nothing is
/// saved.
pub proof fn law_move_right_at_edge(a: AppView, key: KeyEvent, at: Timestamp, id: Seq<char>)
    requires
        a.selected_col + 1 >= a.board.columns.len(),
    ensures
        moved_to_column(a, a.selected_col + 1, at) == a,
        a.mode == Mode::Normal && !is_force_quit(key) && (key.code == KeyCode::Char('L')
            || key.code == KeyCode::Char('>')) ==> {
            &&& step(a, key, at, id) == (AppView {
                waiting: WaitingView::Nothing,
                pending_g: false,
                ..a
            })
            &&& request_for(step(a, key, at, id).waiting) == RequestView::Nothing
        },
{
}

/// No two cards have the same identifier.
pub open spec fn distinct_ids(cards: Seq<crate::model::card::CardView>) -> bool {
    forall|i: int, j: int|
        0 <= i < j < cards.len() ==> (#[trigger] cards[i]).id != (#[trigger] cards[j]).id
}

/// The row brought back into a list of `count` cards.
pub open spec fn row_within(row: int, count: int) -> int {
    if count == 0 {
        0
    } else if row >= count {
        count - 1
    } else {
        row
    }
}

/// Moving the selected card to another column, on a board where no two
/// cards share an identifier and the two columns differ in name. The card
/// gets the column's name and next order and the time of the move; no
/// other card and no column changes. The list of the column it left is the
/// list it was without that card, and the list of the column it entered is
/// the list it was with that card at its end, under the search that is on.
/// The selection stays in its column, on its row or on the last row there
/// is, and the gateway is asked to save the board.
pub proof fn law_move_to_column(a: AppView, to_col: int, at: Timestamp)
    requires
        0 <= to_col < a.board.columns.len(),
        0 <= a.selected_col < a.board.columns.len(),
        a.board.columns[to_col].name != a.board.columns[a.selected_col].name,
        distinct_ids(a.board.cards),
        current(a) is Some,
        column_has_room(a.board.cards, a.board.columns[to_col].name),
    ensures
        ({
            let p = current(a)->0;
            let to = a.board.columns[to_col].name;
            let after = moved_to_column(a, to_col, at);
            let left = visible(after, a.selected_col);
            &&& 0 <= p < a.board.cards.len()
            &&& after.board.name == a.board.name
            &&& after.board.columns == a.board.columns
            &&& after.board.cards.len() == a.board.cards.len()
            &&& after.board.cards[p] == (crate::model::card::CardView {
                column: to,
                order: after.board.cards[p].order,
                updated_at: at,
                ..a.board.cards[p]
            })
            &&& after.board.cards[p].order == crate::model::board::next_order(a.board.cards, to)
            &&& forall|j: int|
                0 <= j < a.board.cards.len() && j != p ==> #[trigger] after.board.cards[j]
                    == a.board.cards[j]
            &&& left == visible(a, a.selected_col).remove(a.selected_row)
            &&& visible(after, to_col) == visible(a, to_col).push(p)
            &&& after.selected_col == a.selected_col
            &&& after.selected_row == row_within(a.selected_row, left.len() as int)
            &&& after.mode == a.mode
            &&& after.search_active == a.search_active
            &&& after.search_buf == a.search_buf
            &&& request_for(after.waiting) == RequestView::SaveBoard
        }),
{
    let cards = a.board.cards;
    let from = scope_shown(a, a.selected_col);
    let into = scope_shown(a, to_col);
    let to = a.board.columns[to_col].name;
    lemma_visible(a, a.selected_col);
    let p = current(a)->0;
    assert(visible(a, a.selected_col)[a.selected_row] == p);
    assert(in_scope(cards[p], from));
    lemma_position_exists(cards, cards[p].id, p);
    assert(position(cards, cards[p].id) == Some(p));
    assert(target(a) == Some(p));
    lemma_next_order(cards, to);
    let after = moved_to_column(a, to_col, at);
    assert(after.board.cards == moved(cards, p, to, at));
    crate::laws::law_move_source_list(cards, p, to, at, from);
    crate::laws::law_move_destination_list(cards, p, to, at, into);
}

/// The key adds a card: it is Enter while a title is typed, the title is
/// not empty, and the selection is in a column of the board.
pub open spec fn adds_a_card(a: AppView, key: KeyEvent) -> bool {
    &&& a.mode == Mode::Insert
    &&& key.code == KeyCode::Enter
    &&& a.input_buf.len() > 0
    &&& 0 <= a.selected_col < a.board.columns.len()
}

/// The card that Enter adds: one with the typed title, at the bottom of the
/// selected column.
pub open spec fn added_card(a: AppView, at: Timestamp, id: Seq<char>) -> crate::model::card::CardView {
    placed(
        a.board.cards,
        new_card(id, a.input_buf, a.board.columns[a.selected_col].name, at),
    )
}

/// Enter in the picker on another board than the one held, answered with
/// success at every step, loads that board, asks for the configuration,
/// saves it with that board as the active one, and only then ends in normal
/// mode with that board held, the selection on the first row of the first
/// column and no search. Until the configuration is saved the engine holds
/// the board it held before.
pub proof fn law_switch(
    a: AppView,
    key: KeyEvent,
    at: Timestamp,
    id: Seq<char>,
    config: RepoConfigView,
    board: BoardView,
)
    requires
        a.mode == Mode::BoardPicker,
        key.code == KeyCode::Enter,
        0 <= a.board_selected < a.board_list.len(),
        a.board_list[a.board_selected] != a.board.name,
    ensures
        ({
            let name = a.board_list[a.board_selected];
            let asked = step(a, key, at, id);
            let loaded = answered(asked, ReplyView::Board(Ok(board)));
            let read = answered(loaded, ReplyView::Config(Ok(config)));
            let done = answered(read, ReplyView::ConfigSaved(Ok(())));
            &&& request_for(asked.waiting) == RequestView::LoadBoard(name)
            &&& request_for(loaded.waiting) == RequestView::LoadConfig
            &&& request_for(read.waiting) == RequestView::SaveConfig(
                RepoConfigView { default_board: name, ..config },
            )
            &&& read.board == a.board
            &&& done == (AppView {
                board,
                mode: Mode::Normal,
                selected_col: 0,
                selected_row: 0,
                search_active: false,
                search_buf: Seq::<char>::empty(),
                message: Some("Switched to board: "@ + name),
                waiting: WaitingView::Nothing,
                ..a
            })
        }),
{
}

/// The selection is in view: it is in a column of the board, on a row of
/// the list that column shows, or on row zero.
pub open spec fn selection_in_view(a: AppView) -> bool {
    &&& 0 <= a.selected_col < a.board.columns.len()
    &&& a.selected_row == 0 || 0 <= a.selected_row < visible(a, a.selected_col).len()
}

/// The scope of the list that column `col` shows.
pub open spec fn scope_shown(a: AppView, col: int) -> Scope {
    Scope { column: Some(a.board.columns[col].name), query: query_of(a) }
}

/// A list is as long as there are cards in its scope, and holds each of
/// them.
proof fn lemma_visible(a: AppView, col: int)
    requires
        0 <= col < a.board.columns.len(),
    ensures
        visible(a, col).len() == count_in_scope(a.board.cards, scope_shown(a, col)),
        is_listing(a.board.cards, scope_shown(a, col), visible(a, col)),
{
    lemma_listing_exists(a.board.cards, scope_shown(a, col));
}

/// A wider scope holds no fewer cards.
proof fn lemma_count_wider(cards: Seq<crate::model::card::CardView>, narrow: Scope, wide: Scope)
    requires
        forall|i: int|
            0 <= i < cards.len() && in_scope(#[trigger] cards[i], narrow) ==> in_scope(
                cards[i],
                wide,
            ),
    ensures
        count_in_scope(cards, narrow) <= count_in_scope(cards, wide),
    decreases cards.len(),
{
    if cards.len() > 0 {
        let front = cards.drop_last();
        assert forall|i: int| 0 <= i < front.len() && in_scope(
            #[trigger] front[i],
            narrow,
        ) implies in_scope(front[i], wide) by {
            assert(front[i] == cards[i]);
        }
        lemma_count_wider(front, narrow, wide);
        assert(cards.last() == cards[cards.len() - 1]);
    }
}

/// Two states that show the same lists: a row in view in the one is in
/// view in the other.
proof fn lemma_same_lists(a: AppView, b: AppView)
    requires
        selection_in_view(a),
        b.board == a.board,
        b.search_active == a.search_active,
        b.search_buf == a.search_buf,
        b.selected_col == a.selected_col,
        b.selected_row == 0 || 0 <= b.selected_row <= a.selected_row,
    ensures
        selection_in_view(b),
{
    assert(visible(b, b.selected_col) == visible(a, a.selected_col));
}

/// A clamped row is in view.
proof fn lemma_clamped_in_view(x: AppView)
    requires
        0 <= x.selected_col < x.board.columns.len(),
        x.selected_row >= 0,
    ensures
        selection_in_view(clamped(x)),
{
    assert(visible(clamped(x), x.selected_col) == visible(x, x.selected_col));
}

/// The last row is in view.
proof fn lemma_bottom_in_view(x: AppView)
    requires
        0 <= x.selected_col < x.board.columns.len(),
        x.selected_row == 0 || visible(x, x.selected_col).len() > 0,
    ensures
        selection_in_view(at_bottom(x)),
{
    assert(visible(at_bottom(x), x.selected_col) == visible(x, x.selected_col));
}

/// Moving the selected card keeps the selection in view.
proof fn lemma_move_in_view(a: AppView, to_col: int, at: Timestamp)
    requires
        selection_in_view(a),
    ensures
        selection_in_view(moved_to_column(a, to_col, at)),
{
    if 0 <= to_col < a.board.columns.len() {
        if let Some(p) = target(a) {
            let to = a.board.columns[to_col].name;
            let x = AppView {
                message: Some("Moved → "@ + to),
                waiting: WaitingView::Saved,
                ..with_cards(a, moved(a.board.cards, p, to, at))
            };
            lemma_clamped_in_view(x);
        }
    }
}

/// Archiving the selected card keeps the selection in view.
proof fn lemma_archive_in_view(a: AppView, at: Timestamp)
    requires
        selection_in_view(a),
    ensures
        selection_in_view(archived_current(a, at)),
{
    if let Some(p) = target(a) {
        let x = AppView {
            message: Some("Archived: "@ + a.board.cards[p].title),
            waiting: WaitingView::Saved,
            ..with_cards(a, archived(a.board.cards, p, at))
        };
        lemma_clamped_in_view(x);
    }
}

/// Deleting the selected card keeps the selection in view.
proof fn lemma_delete_in_view(a: AppView)
    requires
        selection_in_view(a),
    ensures
        selection_in_view(deleted_current(a)),
{
    if let Some(p) = target(a) {
        let x = with_cards(a, deleted(a.board.cards, a.board.cards[p].id));
        lemma_clamped_in_view(x);
        lemma_same_lists(clamped(x), deleted_current(a));
    }
}

/// Demoting the selected card keeps the selection in view: the card is
/// still shown, and the selection goes to the last row.
proof fn lemma_demote_in_view(a: AppView, at: Timestamp)
    requires
        selection_in_view(a),
    ensures
        selection_in_view(demoted_current(a, at)),
{
    if let Some(p) = target(a) {
        let col = a.selected_col;
        let cards = a.board.cards;
        let i = current(a)->0;
        lemma_visible(a, col);
        assert(in_scope(cards[i], scope_shown(a, col)));
        crate::model::board::lemma_position_exists(cards, cards[i].id, i);
        let x = with_cards(a, demoted(cards, p, at));
        lemma_visible(x, col);
        assert(scope_shown(x, col) == scope_shown(a, col));
        assert(in_scope(x.board.cards[i], scope_shown(x, col)));
        assert(visible(x, col).contains(i));
        lemma_bottom_in_view(x);
        lemma_same_lists(at_bottom(x), demoted_current(a, at));
    }
}

/// Starting a search keeps the selection in view: with no query every list
/// is as long as before or longer.
proof fn lemma_search_start_in_view(a: AppView, b: AppView)
    requires
        selection_in_view(a),
        b.board == a.board,
        b.selected_col == a.selected_col,
        b.selected_row == a.selected_row,
        b.search_buf == Seq::<char>::empty(),
    ensures
        selection_in_view(b),
{
    let col = a.selected_col;
    lemma_visible(a, col);
    lemma_visible(b, col);
    lemma_count_wider(a.board.cards, scope_shown(a, col), scope_shown(b, col));
}

/// Adding a card keeps the selection in view: every list is as long as
/// before or longer.
proof fn lemma_add_in_view(a: AppView, b: AppView, card: crate::model::card::CardView)
    requires
        selection_in_view(a),
        b.board == (BoardView { cards: a.board.cards.push(card), ..a.board }),
        b.search_active == a.search_active,
        b.search_buf == a.search_buf,
        b.selected_col == a.selected_col,
        b.selected_row == a.selected_row,
    ensures
        selection_in_view(b),
{
    let col = a.selected_col;
    lemma_visible(a, col);
    lemma_visible(b, col);
    assert(a.board.cards.push(card).drop_last() =~= a.board.cards);
    assert(scope_shown(b, col) == scope_shown(a, col));
}

/// The keys of normal mode that edit the selected card keep the selection
/// in view.
proof fn lemma_normal_edits_in_view(a: AppView, code: KeyCode, at: Timestamp)
    requires
        selection_in_view(a),
        code == KeyCode::Char('>') || code == KeyCode::Char('L') || code == KeyCode::Char('<')
            || code == KeyCode::Char('H') || code == KeyCode::Char('K') || code
            == KeyCode::Char('J') || code == KeyCode::Char('x'),
    ensures
        selection_in_view(normal_step(a, code, at)),
{
    let b = AppView { pending_g: false, ..a };
    lemma_same_lists(a, b);
    if code == KeyCode::Char('>') || code == KeyCode::Char('L') {
        lemma_move_in_view(b, a.selected_col + 1, at);
    } else if code == KeyCode::Char('<') || code == KeyCode::Char('H') {
        lemma_move_in_view(b, a.selected_col - 1, at);
    } else if code == KeyCode::Char('K') {
    } else if code == KeyCode::Char('J') {
        lemma_demote_in_view(b, at);
    } else {
        lemma_archive_in_view(b, at);
    }
}

/// The keys of normal mode that move the selection keep it in view.
proof fn lemma_normal_moves_in_view(a: AppView, code: KeyCode, at: Timestamp)
    requires
        selection_in_view(a),
        code == KeyCode::Char('j') || code == KeyCode::Down || code == KeyCode::Char('k') || code
            == KeyCode::Up || code == KeyCode::Char('h') || code == KeyCode::Left || code
            == KeyCode::Char('l') || code == KeyCode::Right || code == KeyCode::Char('g') || code
            == KeyCode::Char('G') || code == KeyCode::Esc || code == KeyCode::Char('/'),
    ensures
        selection_in_view(normal_step(a, code, at)),
{
    let b = AppView { pending_g: false, ..a };
    let after = normal_step(a, code, at);
    lemma_same_lists(a, b);
    if code == KeyCode::Char('h') || code == KeyCode::Left {
        if a.selected_col > 0 {
            lemma_clamped_in_view(AppView { selected_col: a.selected_col - 1, ..b });
        }
    } else if code == KeyCode::Char('l') || code == KeyCode::Right {
        if a.selected_col + 1 < a.board.columns.len() {
            lemma_clamped_in_view(AppView { selected_col: a.selected_col + 1, ..b });
        }
    } else if code == KeyCode::Char('G') {
        lemma_bottom_in_view(b);
    } else if code == KeyCode::Esc {
        lemma_clamped_in_view(
            AppView { search_active: false, search_buf: Seq::empty(), message: None, ..b },
        );
    } else if code == KeyCode::Char('/') {
        lemma_search_start_in_view(a, after);
    } else if code == KeyCode::Char('j') || code == KeyCode::Down {
        assert(visible(after, a.selected_col) == visible(a, a.selected_col));
    } else {
        lemma_same_lists(a, after);
    }
}

/// Every key of normal mode keeps the selection in view.
proof fn lemma_normal_in_view(a: AppView, code: KeyCode, at: Timestamp)
    requires
        selection_in_view(a),
    ensures
        selection_in_view(normal_step(a, code, at)),
{
    if code == KeyCode::Char('>') || code == KeyCode::Char('L') || code == KeyCode::Char('<')
        || code == KeyCode::Char('H') || code == KeyCode::Char('K') || code == KeyCode::Char('J')
        || code == KeyCode::Char('x') {
        lemma_normal_edits_in_view(a, code, at);
    } else if code == KeyCode::Char('j') || code == KeyCode::Down || code == KeyCode::Char('k')
        || code == KeyCode::Up || code == KeyCode::Char('h') || code == KeyCode::Left || code
        == KeyCode::Char('l') || code == KeyCode::Right || code == KeyCode::Char('g') || code
        == KeyCode::Char('G') || code == KeyCode::Esc || code == KeyCode::Char('/') {
        lemma_normal_moves_in_view(a, code, at);
    } else {
        lemma_same_lists(a, normal_step(a, code, at));
    }
}

/// Every key of insert mode keeps the selection in view.
proof fn lemma_insert_in_view(a: AppView, code: KeyCode, at: Timestamp, id: Seq<char>)
    requires
        selection_in_view(a),
    ensures
        selection_in_view(insert_step(a, code, at, id)),
{
    let after = insert_step(a, code, at, id);
    if code == KeyCode::Enter && a.input_buf.len() > 0 {
        lemma_add_in_view(a, after, added_card(a, at, id));
    } else {
        lemma_same_lists(a, after);
    }
}

/// Every key of search mode keeps the selection in view.
proof fn lemma_search_in_view(a: AppView, code: KeyCode)
    requires
        selection_in_view(a),
    ensures
        selection_in_view(search_step(a, code)),
{
    if code == KeyCode::Esc {
        lemma_clamped_in_view(
            AppView {
                mode: Mode::Normal,
                search_active: false,
                search_buf: Seq::empty(),
                message: None,
                ..a
            },
        );
    } else if code == KeyCode::Enter || code == KeyCode::Backspace || code is Char {
    } else {
        lemma_same_lists(a, search_step(a, code));
    }
}

/// Every key of confirm mode keeps the selection in view.
proof fn lemma_confirm_in_view(a: AppView, code: KeyCode)
    requires
        selection_in_view(a),
    ensures
        selection_in_view(confirm_step(a, code)),
{
    let quiet = AppView { mode: Mode::Normal, pending_confirm: None, message: None, ..a };
    lemma_same_lists(a, quiet);
    lemma_delete_in_view(quiet);
}

/// Whatever the key, the selection stays in view: in a column of the
/// board, on a row of the list that column shows, or on row zero.
pub proof fn law_selection_stays_in_view(a: AppView, key: KeyEvent, at: Timestamp, id: Seq<char>)
    requires
        selection_in_view(a),
    ensures
        selection_in_view(step(a, key, at, id)),
{
    let b = AppView { waiting: WaitingView::Nothing, ..a };
    lemma_same_lists(a, b);
    if is_force_quit(key) {
        lemma_same_lists(a, step(a, key, at, id));
    } else {
        match a.mode {
            Mode::Normal => lemma_normal_in_view(b, key.code, at),
            Mode::Insert => lemma_insert_in_view(b, key.code, at, id),
            Mode::Search => lemma_search_in_view(b, key.code),
            Mode::Help => lemma_same_lists(a, step(a, key, at, id)),
            Mode::Confirm => lemma_confirm_in_view(b, key.code),
            Mode::BoardPicker => lemma_same_lists(a, step(a, key, at, id)),
        }
    }
}

/// The board that a switch has loaded and not yet put in place.
pub open spec fn held_board(w: WaitingView) -> Option<BoardView> {
    match w {
        WaitingView::SwitchConfig(_, board) => Some(board),
        WaitingView::SwitchSaved(_, board) => Some(board),
        _ => None,
    }
}

/// The board that a switch holds back, if any, has a column.
pub open spec fn held_has_column(a: AppView) -> bool {
    held_board(a.waiting) matches Some(board) ==> board.columns.len() > 0
}

/// Whatever the reply, the selection stays in view, provided that a board
/// which is loaded has the selected column, and that a board which a
/// switch holds back has a column; the latter then holds after the reply
/// too.
pub proof fn law_reply_keeps_view(a: AppView, reply: ReplyView)
    requires
        selection_in_view(a),
        held_has_column(a),
        reply matches ReplyView::Board(Ok(board)) ==> a.selected_col < board.columns.len(),
    ensures
        selection_in_view(answered(a, reply)),
        held_has_column(answered(a, reply)),
{
    let b = AppView { waiting: WaitingView::Nothing, ..a };
    let after = answered(a, reply);
    lemma_same_lists(a, b);
    match (a.waiting, reply) {
        (WaitingView::Added(_), ReplyView::Saved(Ok(_))) => {
            assert(visible(after, a.selected_col) == visible(a, a.selected_col));
        },
        (WaitingView::ReloadBoard(_), ReplyView::Board(Ok(board))) => {
            lemma_clamped_in_view(AppView { board, message: Some("Board reloaded."@), ..b });
        },
        (WaitingView::SwitchSaved(_, _), ReplyView::ConfigSaved(Ok(_))) => {},
        _ => {
            lemma_same_lists(a, after);
        },
    }
}

} // verus!
