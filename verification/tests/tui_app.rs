use kuk::clock::Timestamp;
use kuk::model::board::{Board, Column};
use kuk::model::card::Card;
use kuk::model::config::RepoConfig;
use kuk::tui::app::{App, ConfirmAction, Mode, Reply, Request, Waiting};
use kuk::tui::keys::{KeyCode, KeyEvent, KeyModifiers};

/// A gateway that keeps its documents in memory.
struct Store {
    boards: Vec<Board>,
    config: RepoConfig,
    saves: usize,
    fail_save: bool,
    fail_config: bool,
    fail_config_save: bool,
    fail_list: bool,
    config_saves: usize,
}

impl Store {
    fn new() -> Store {
        Store {
            boards: vec![Board::default_board()],
            config: RepoConfig::default(),
            saves: 0,
            fail_save: false,
            fail_config: false,
            fail_config_save: false,
            fail_list: false,
            config_saves: 0,
        }
    }

    fn load_board(&self, name: &str) -> Result<Board, String> {
        self.boards
            .iter()
            .find(|b| b.name == name)
            .cloned()
            .ok_or_else(|| format!("Board not found: {name}"))
    }

    fn save_board(&mut self, board: &Board) -> Result<(), String> {
        if self.fail_save {
            return Err("IO error: disk full".into());
        }
        self.saves += 1;
        match self.boards.iter_mut().find(|b| b.name == board.name) {
            Some(slot) => *slot = board.clone(),
            None => self.boards.push(board.clone()),
        }
        Ok(())
    }

    fn create_board(&mut self, name: &str, columns: Vec<Column>) {
        self.boards.push(Board { name: name.into(), columns, cards: Vec::new() });
    }

    fn list_boards(&self) -> Result<Vec<String>, String> {
        if self.fail_list {
            return Err("IO error: unreadable".into());
        }
        let mut names: Vec<String> = self.boards.iter().map(|b| b.name.clone()).collect();
        names.sort();
        Ok(names)
    }

    fn perform(&mut self, app: &App, request: Request) -> Option<Reply> {
        match request {
            Request::Nothing => None,
            Request::SaveBoard => Some(Reply::Saved(self.save_board(&app.board))),
            Request::LoadConfig => Some(Reply::Config(if self.fail_config {
                Err("IO error: no config".into())
            } else {
                Ok(self.config.clone())
            })),
            Request::SaveConfig(config) => Some(Reply::ConfigSaved(if self.fail_config_save {
                Err("IO error: read-only".into())
            } else {
                self.config = config;
                self.config_saves += 1;
                Ok(())
            })),
            Request::LoadBoard(name) => Some(Reply::Board(self.load_board(&name))),
            Request::ListBoards => Some(Reply::Boards(self.list_boards())),
        }
    }
}

/// An engine with the gateway it talks to.
struct Session {
    store: Store,
    app: App,
}

impl Session {
    fn handle_key(&mut self, key: KeyEvent) {
        assert!(self.app.has_room_for(key));
        let mut request = self.app.handle_key(key);
        while let Some(reply) = self.store.perform(&self.app, request) {
            request = self.app.handle_reply(reply);
        }
        assert_eq!(self.app.waiting, Waiting::Nothing);
    }
}

fn make_key(code: KeyCode) -> KeyEvent {
    KeyEvent::plain(code)
}

fn make_key_mod(code: KeyCode, modifiers: KeyModifiers) -> KeyEvent {
    KeyEvent::new(code, modifiers)
}

fn make_shift_key(code: KeyCode) -> KeyEvent {
    make_key_mod(code, KeyModifiers::shift())
}

fn test_app() -> Session {
    let mut store = Store::new();

    // Add some test cards
    let mut board = store.load_board("default").unwrap();
    let mut c1 = Card::new("Task A", "todo");
    c1.order = 0;
    let mut c2 = Card::new("Task B", "todo");
    c2.order = 1;
    let mut c3 = Card::new("Task C", "doing");
    c3.order = 0;
    board.cards.push(c1);
    board.cards.push(c2);
    board.cards.push(c3);
    store.save_board(&board).unwrap();
    store.saves = 0;

    let app = App::new(store.load_board(&store.config.default_board).unwrap());
    Session { store, app }
}

fn titles(app: &App, col: usize) -> Vec<String> {
    app.column_cards(col).iter().map(|c| c.title.clone()).collect()
}

#[test]
fn app_initializes() {
    let s = test_app();
    let app = &s.app;
    assert_eq!(app.mode, Mode::Normal);
    assert_eq!(app.selected_col, 0);
    assert_eq!(app.selected_row, 0);
    assert!(!app.should_quit);
}

#[test]
fn app_starts_clean() {
    let app = App::new(Board::default_board());
    assert_eq!(app.input_buf, "");
    assert_eq!(app.search_buf, "");
    assert!(!app.search_active);
    assert_eq!(app.message, None);
    assert_eq!(app.pending_confirm, None);
    assert!(!app.pending_g);
    assert!(app.board_list.is_empty());
    assert_eq!(app.board_selected, 0);
    assert_eq!(app.waiting, Waiting::Nothing);
    assert_eq!(app.request(), Request::Nothing);
}

#[test]
fn column_cards_returns_sorted() {
    let s = test_app();
    let app = &s.app;
    let cards = app.column_cards(0);
    assert_eq!(cards.len(), 2);
    assert_eq!(cards[0].title, "Task A");
    assert_eq!(cards[1].title, "Task B");
}

#[test]
fn column_cards_sorts_by_order_and_keeps_ties_in_sequence() {
    let mut app = App::new(Board::default_board());
    for (title, order, column, archived) in [
        ("five", 5u32, "todo", false),
        ("one", 1, "todo", false),
        ("hidden", 0, "todo", true),
        ("elsewhere", 0, "doing", false),
        ("also five", 5, "todo", false),
        ("zero", 0, "todo", false),
    ] {
        let mut card = Card::new(title, column);
        card.order = order;
        card.archived = archived;
        app.board.cards.push(card);
    }
    assert_eq!(titles(&app, 0), vec!["zero", "one", "five", "also five"]);
    assert_eq!(titles(&app, 1), vec!["elsewhere"]);
    assert!(app.column_cards(2).is_empty());
    assert!(app.column_cards(3).is_empty());
    assert_eq!(app.visible(0), vec![5, 1, 0, 4]);
    app.selected_row = 2;
    assert_eq!(app.current_card().unwrap().title, "five");
    assert_eq!(app.current_index(), Some(0));
    assert_eq!(app.current_card_id(), Some(app.board.cards[0].id.clone()));
    app.selected_row = 4;
    assert!(app.current_card().is_none());
    assert_eq!(app.current_card_id(), None);
}

#[test]
fn nav_j_moves_down() {
    let mut app = test_app();
    assert_eq!(app.app.selected_row, 0);
    app.handle_key(make_key(KeyCode::Char('j')));
    assert_eq!(app.app.selected_row, 1);
}

#[test]
fn nav_k_moves_up() {
    let mut app = test_app();
    app.app.selected_row = 1;
    app.handle_key(make_key(KeyCode::Char('k')));
    assert_eq!(app.app.selected_row, 0);
}

#[test]
fn nav_k_at_top_stays() {
    let mut app = test_app();
    app.handle_key(make_key(KeyCode::Char('k')));
    assert_eq!(app.app.selected_row, 0);
}

#[test]
fn nav_j_at_bottom_stays() {
    let mut app = test_app();
    app.handle_key(make_key(KeyCode::Char('j')));
    app.handle_key(make_key(KeyCode::Char('j')));
    app.handle_key(make_key(KeyCode::Char('j')));
    assert_eq!(app.app.selected_row, 1); // only 2 items in todo
}

#[test]
fn nav_l_moves_right() {
    let mut app = test_app();
    app.handle_key(make_key(KeyCode::Char('l')));
    assert_eq!(app.app.selected_col, 1);
}

#[test]
fn nav_h_moves_left() {
    let mut app = test_app();
    app.app.selected_col = 1;
    app.handle_key(make_key(KeyCode::Char('h')));
    assert_eq!(app.app.selected_col, 0);
}

#[test]
fn nav_h_at_left_stays() {
    let mut app = test_app();
    app.handle_key(make_key(KeyCode::Char('h')));
    assert_eq!(app.app.selected_col, 0);
}

#[test]
fn nav_l_at_right_stays() {
    let mut app = test_app();
    app.handle_key(make_key(KeyCode::Char('l')));
    app.handle_key(make_key(KeyCode::Char('l')));
    app.handle_key(make_key(KeyCode::Char('l')));
    app.handle_key(make_key(KeyCode::Char('l')));
    assert_eq!(app.app.selected_col, 2); // 3 columns
}

#[test]
fn nav_gg_goes_to_top() {
    let mut app = test_app();
    app.app.selected_row = 1;
    app.handle_key(make_key(KeyCode::Char('g')));
    app.handle_key(make_key(KeyCode::Char('g')));
    assert_eq!(app.app.selected_row, 0);
}

#[test]
fn nav_g_prefix_is_cleared_by_any_other_key() {
    let mut app = test_app();
    app.app.selected_row = 1;
    app.handle_key(make_key(KeyCode::Char('g')));
    assert!(app.app.pending_g);
    app.handle_key(make_key(KeyCode::Char('z')));
    assert!(!app.app.pending_g);
    app.handle_key(make_key(KeyCode::Char('g')));
    assert_eq!(app.app.selected_row, 1);
    assert!(app.app.pending_g);
    // a `d` after `g` only clears the prefix
    app.handle_key(make_key(KeyCode::Char('d')));
    assert_eq!(app.app.mode, Mode::Normal);
    assert!(!app.app.pending_g);
    // `q` leaves the prefix alone
    app.handle_key(make_key(KeyCode::Char('g')));
    app.handle_key(make_key(KeyCode::Char('q')));
    assert!(app.app.pending_g);
    assert!(app.app.should_quit);
}

#[test]
fn nav_big_g_goes_to_bottom() {
    let mut app = test_app();
    app.handle_key(make_key(KeyCode::Char('G')));
    assert_eq!(app.app.selected_row, 1); // 2 items, last is index 1
}

#[test]
fn quit_on_q() {
    let mut app = test_app();
    app.handle_key(make_key(KeyCode::Char('q')));
    assert!(app.app.should_quit);
}

#[test]
fn quit_on_ctrl_c() {
    let mut app = test_app();
    app.handle_key(make_key_mod(KeyCode::Char('c'), KeyModifiers::control()));
    assert!(app.app.should_quit);
}

#[test]
fn ctrl_c_quits_from_every_mode() {
    for mode in
        [Mode::Normal, Mode::Insert, Mode::Search, Mode::Help, Mode::Confirm, Mode::BoardPicker]
    {
        let mut app = test_app();
        app.app.mode = mode;
        app.app.input_buf = "typed".into();
        app.handle_key(make_key_mod(KeyCode::Char('c'), KeyModifiers::control()));
        assert!(app.app.should_quit);
        assert_eq!(app.app.mode, mode);
        assert_eq!(app.app.input_buf, "typed");
        assert_eq!(app.store.saves, 0);
    }
    // without control it is a character like any other
    let mut app = test_app();
    app.app.mode = Mode::Insert;
    app.handle_key(make_key(KeyCode::Char('c')));
    assert!(!app.app.should_quit);
    assert_eq!(app.app.input_buf, "c");
}

#[test]
fn insert_mode_add_card() {
    let mut app = test_app();
    // Press 'a' to enter insert mode
    app.handle_key(make_key(KeyCode::Char('a')));
    assert_eq!(app.app.mode, Mode::Insert);

    // Type title
    app.handle_key(make_key(KeyCode::Char('N')));
    app.handle_key(make_key(KeyCode::Char('e')));
    app.handle_key(make_key(KeyCode::Char('w')));
    assert_eq!(app.app.input_buf, "New");

    // Press Enter to save
    app.handle_key(make_key(KeyCode::Enter));
    assert_eq!(app.app.mode, Mode::Normal);

    // Should now have 3 cards in todo
    assert_eq!(app.app.column_cards(0).len(), 3);
}

#[test]
fn insert_puts_the_card_at_the_bottom_and_saves() {
    let mut app = test_app();
    app.handle_key(make_key(KeyCode::Char('a')));
    assert_eq!(app.app.message.as_deref(), Some("Add card (Enter to save, Esc to cancel):"));
    for c in "New".chars() {
        app.handle_key(make_key(KeyCode::Char(c)));
    }
    app.handle_key(make_key(KeyCode::Enter));
    let card = app.app.board.cards.last().unwrap();
    assert_eq!(card.title, "New");
    assert_eq!(card.column, "todo");
    assert_eq!(card.order, 2);
    assert_eq!(card.id.len(), 26);
    assert!(!card.archived);
    assert_eq!(app.app.selected_row, 2);
    assert_eq!(app.app.message.as_deref(), Some("Added: New"));
    assert_eq!(app.app.input_buf, "");
    assert_eq!(app.store.saves, 1);
    assert_eq!(app.store.load_board("default").unwrap().cards.len(), 4);
}

#[test]
fn insert_mode_cancel() {
    let mut app = test_app();
    app.handle_key(make_key(KeyCode::Char('a')));
    app.handle_key(make_key(KeyCode::Char('X')));
    app.handle_key(make_key(KeyCode::Esc));
    assert_eq!(app.app.mode, Mode::Normal);
    assert_eq!(app.app.column_cards(0).len(), 2); // unchanged
}

#[test]
fn insert_mode_backspace() {
    let mut app = test_app();
    app.handle_key(make_key(KeyCode::Char('a')));
    app.handle_key(make_key(KeyCode::Char('A')));
    app.handle_key(make_key(KeyCode::Char('B')));
    app.handle_key(make_key(KeyCode::Backspace));
    assert_eq!(app.app.input_buf, "A");
}

#[test]
fn backspace_on_an_empty_buffer_does_nothing() {
    let mut app = test_app();
    app.handle_key(make_key(KeyCode::Char('a')));
    app.handle_key(make_key(KeyCode::Backspace));
    assert_eq!(app.app.input_buf, "");
    assert_eq!(app.app.mode, Mode::Insert);
    app.handle_key(make_key(KeyCode::Up));
    assert_eq!(app.app.input_buf, "");
}

#[test]
fn search_filters_cards() {
    let mut app = test_app();
    // Enter search mode
    app.handle_key(make_key(KeyCode::Char('/')));
    assert_eq!(app.app.mode, Mode::Search);

    // Type search query — "k A" uniquely matches "Task A" but not "Task B"
    app.handle_key(make_key(KeyCode::Char('k')));
    app.handle_key(make_key(KeyCode::Char(' ')));
    app.handle_key(make_key(KeyCode::Char('A')));
    app.handle_key(make_key(KeyCode::Enter));

    // Search active: only "Task A" matches
    assert!(app.app.search_active);
    let cards = app.app.column_cards(0);
    assert_eq!(cards.len(), 1);
    assert_eq!(cards[0].title, "Task A");
}

#[test]
fn search_ignores_case_and_an_empty_query_matches_all() {
    let mut app = test_app();
    app.app.selected_row = 1;
    app.handle_key(make_key(KeyCode::Char('/')));
    assert_eq!(app.app.message.as_deref(), Some("Search:"));
    assert!(app.app.search_active);
    assert_eq!(app.app.column_cards(0).len(), 2);
    for c in "tASK b".chars() {
        app.handle_key(make_key(KeyCode::Char(c)));
        assert_eq!(app.app.selected_row, 0);
    }
    assert_eq!(titles(&app.app, 0), vec!["Task B"]);
    assert!(app.app.column_cards(1).is_empty());
    app.app.selected_row = 5;
    app.handle_key(make_key(KeyCode::Backspace));
    assert_eq!(app.app.selected_row, 0);
    assert_eq!(app.app.search_buf, "tASK ");
    assert_eq!(app.app.column_cards(0).len(), 2);
    assert_eq!(titles(&app.app, 1), vec!["Task C"]);
    app.handle_key(make_key(KeyCode::Enter));
    assert_eq!(app.app.mode, Mode::Normal);
    assert_eq!(app.app.message, None);
    // Escape in normal mode clears the filter
    app.handle_key(make_key(KeyCode::Esc));
    assert!(!app.app.search_active);
    assert_eq!(app.app.search_buf, "");
}

#[test]
fn search_esc_clears() {
    let mut app = test_app();
    app.handle_key(make_key(KeyCode::Char('/')));
    app.handle_key(make_key(KeyCode::Char('Z')));
    app.handle_key(make_key(KeyCode::Esc));
    assert!(!app.app.search_active);
    assert_eq!(app.app.column_cards(0).len(), 2);
}

#[test]
fn search_without_match_empties_every_column() {
    let mut app = test_app();
    app.app.selected_row = 1;
    app.handle_key(make_key(KeyCode::Char('/')));
    for c in "xyz".chars() {
        app.handle_key(make_key(KeyCode::Char(c)));
    }
    for col in 0..3 {
        assert!(app.app.column_cards(col).is_empty());
    }
    assert_eq!(app.app.selected_row, 0);
    assert!(app.app.current_card().is_none());
    app.handle_key(make_key(KeyCode::Enter));
    assert_eq!(app.app.selected_row, 0);
    for col in 0..3 {
        assert!(app.app.column_cards(col).is_empty());
    }
    // nothing to act on: these keys do nothing
    let before = app.app.board.clone();
    for key in ['d', 'K', 'J', 'x', 'L', 'H'] {
        app.handle_key(make_key(KeyCode::Char(key)));
    }
    assert_eq!(app.app.board, before);
    assert_eq!(app.app.mode, Mode::Normal);
    assert_eq!(app.store.saves, 0);
}

#[test]
fn move_card_right_shift_l() {
    let mut app = test_app();
    assert_eq!(app.app.column_cards(0).len(), 2);
    assert_eq!(app.app.column_cards(1).len(), 1);

    // Move first todo card to doing
    app.handle_key(make_shift_key(KeyCode::Char('L')));

    assert_eq!(app.app.column_cards(0).len(), 1);
    assert_eq!(app.app.column_cards(1).len(), 2);
}

#[test]
fn move_right_puts_the_card_last_in_the_next_column() {
    let mut app = test_app();
    let touched = app.app.board.cards[0].updated_at;
    let request = app.app.step(
        make_key(KeyCode::Char('>')),
        Timestamp { secs: 1, nanos: 2 },
        String::new(),
    );
    assert_eq!(request, Request::SaveBoard);
    assert_eq!(app.app.waiting, Waiting::Saved);
    assert_eq!(titles(&app.app, 0), vec!["Task B"]);
    assert_eq!(titles(&app.app, 1), vec!["Task C", "Task A"]);
    let card = &app.app.board.cards[0];
    assert_eq!(card.column, "doing");
    assert_eq!(card.order, 1);
    assert_ne!(touched, card.updated_at);
    assert_eq!(card.updated_at, Timestamp { secs: 1, nanos: 2 });
    assert_eq!(app.app.message.as_deref(), Some("Moved → doing"));
    assert_eq!(app.app.selected_row, 0);
    assert_eq!(app.app.handle_reply(Reply::Saved(Ok(()))), Request::Nothing);
    assert_eq!(app.app.message.as_deref(), Some("Moved → doing"));
}

#[test]
fn move_card_left_shift_h() {
    let mut app = test_app();
    // Go to doing column
    app.handle_key(make_key(KeyCode::Char('l')));
    assert_eq!(app.app.selected_col, 1);
    assert_eq!(app.app.column_cards(1).len(), 1);

    // Move card left
    app.handle_key(make_shift_key(KeyCode::Char('H')));
    assert_eq!(app.app.column_cards(0).len(), 3);
    assert_eq!(app.app.column_cards(1).len(), 0);
}

#[test]
fn move_right_in_the_last_column_does_nothing() {
    let mut app = test_app();
    let mut card = Card::new("Task D", "done");
    card.order = 3;
    app.app.board.cards.push(card);
    app.app.selected_col = 2;
    app.app.message = Some("before".into());
    let before = app.app.board.clone();
    let request = app.app.handle_key(make_shift_key(KeyCode::Char('L')));
    assert_eq!(request, Request::Nothing);
    assert_eq!(app.app.board, before);
    assert_eq!(app.app.selected_col, 2);
    assert_eq!(app.app.selected_row, 0);
    assert_eq!(app.app.message.as_deref(), Some("before"));
    assert_eq!(app.app.mode, Mode::Normal);
    app.handle_key(make_key(KeyCode::Char('>')));
    assert_eq!(app.app.board, before);
    assert_eq!(app.store.saves, 0);
    // and so does a move left in the first column
    app.app.selected_col = 0;
    app.handle_key(make_key(KeyCode::Char('<')));
    app.handle_key(make_shift_key(KeyCode::Char('H')));
    assert_eq!(app.app.board, before);
    assert_eq!(app.store.saves, 0);
}

#[test]
fn hoist_card_shift_k() {
    let mut app = test_app();
    // Select second card
    app.handle_key(make_key(KeyCode::Char('j')));
    assert_eq!(app.app.selected_row, 1);

    // Hoist it
    app.handle_key(make_shift_key(KeyCode::Char('K')));
    assert_eq!(app.app.selected_row, 0);
    let cards = app.app.column_cards(0);
    assert_eq!(cards[0].title, "Task B");
}

#[test]
fn hoist_renumbers_the_column() {
    let mut app = test_app();
    app.handle_key(make_key(KeyCode::Char('j')));
    app.handle_key(make_shift_key(KeyCode::Char('K')));
    let orders: Vec<(String, u32)> =
        app.app.board.cards.iter().map(|c| (c.title.clone(), c.order)).collect();
    assert_eq!(
        orders,
        vec![("Task A".to_string(), 1), ("Task B".to_string(), 0), ("Task C".to_string(), 0)]
    );
    assert_eq!(titles(&app.app, 0), vec!["Task B", "Task A"]);
    assert_eq!(app.app.message.as_deref(), Some("Hoisted to top."));
    assert_eq!(app.store.saves, 1);
    assert_eq!(app.store.load_board("default").unwrap(), app.app.board);
}

#[test]
fn demote_card_shift_j() {
    let mut app = test_app();
    // Demote first card
    app.handle_key(make_shift_key(KeyCode::Char('J')));
    let cards = app.app.column_cards(0);
    assert_eq!(cards[0].title, "Task B");
    assert_eq!(cards[1].title, "Task A");
}

#[test]
fn demote_gives_the_next_order_and_follows_the_card() {
    let mut app = test_app();
    app.handle_key(make_shift_key(KeyCode::Char('J')));
    assert_eq!(app.app.board.cards[0].order, 2);
    assert_eq!(app.app.board.cards[1].order, 1);
    assert_eq!(app.app.selected_row, 1);
    assert_eq!(app.app.message.as_deref(), Some("Demoted to bottom."));
    // the last card demoted again still moves one up
    app.handle_key(make_shift_key(KeyCode::Char('J')));
    assert_eq!(app.app.board.cards[0].order, 3);
    assert_eq!(app.store.saves, 2);
}

#[test]
fn archive_card_x() {
    let mut app = test_app();
    assert_eq!(app.app.column_cards(0).len(), 2);
    app.handle_key(make_key(KeyCode::Char('x')));
    assert_eq!(app.app.column_cards(0).len(), 1);
}

#[test]
fn archive_keeps_the_card_on_the_board() {
    let mut app = test_app();
    app.handle_key(make_key(KeyCode::Char('j')));
    app.handle_key(make_key(KeyCode::Char('x')));
    assert_eq!(app.app.board.cards.len(), 3);
    assert!(app.app.board.cards[1].archived);
    assert_eq!(app.app.message.as_deref(), Some("Archived: Task B"));
    assert_eq!(app.app.selected_row, 0);
    assert_eq!(titles(&app.app, 0), vec!["Task A"]);
    assert_eq!(app.app.board.next_order("todo"), 1);
    assert_eq!(app.app.board.resolve_card_id("1"), Some(app.app.board.cards[0].id.clone()));
    assert_eq!(app.app.board.resolve_card_id("2"), Some(app.app.board.cards[2].id.clone()));
    assert_eq!(app.app.board.resolve_card_id("3"), None);
    assert_eq!(app.store.saves, 1);
}

#[test]
fn delete_card_confirm_y() {
    let mut app = test_app();
    assert_eq!(app.app.column_cards(0).len(), 2);
    // Press 'd' to initiate delete
    app.handle_key(make_key(KeyCode::Char('d')));
    assert_eq!(app.app.mode, Mode::Confirm);

    // Confirm with 'y'
    app.handle_key(make_key(KeyCode::Char('y')));
    assert_eq!(app.app.mode, Mode::Normal);
    assert_eq!(app.app.column_cards(0).len(), 1);
}

#[test]
fn delete_the_only_card_of_a_column() {
    let mut app = test_app();
    app.handle_key(make_key(KeyCode::Char('l')));
    app.handle_key(make_key(KeyCode::Char('d')));
    assert_eq!(app.app.pending_confirm, Some(ConfirmAction::Delete));
    assert_eq!(app.app.message.as_deref(), Some("Delete this card? (y/n)"));
    app.handle_key(make_key(KeyCode::Char('Y')));
    assert_eq!(app.app.mode, Mode::Normal);
    assert_eq!(app.app.pending_confirm, None);
    assert!(app.app.column_cards(1).is_empty());
    assert_eq!(app.app.board.cards.len(), 2);
    assert!(app.app.board.cards.iter().all(|c| c.title != "Task C"));
    assert_eq!(app.app.selected_row, 0);
    assert_eq!(app.app.message.as_deref(), Some("Deleted: Task C"));
    assert_eq!(app.store.saves, 1);
    assert_eq!(app.store.load_board("default").unwrap().cards.len(), 2);
    // with nothing selected `d` asks nothing
    app.handle_key(make_key(KeyCode::Char('d')));
    assert_eq!(app.app.mode, Mode::Normal);
}

#[test]
fn delete_card_cancel_n() {
    let mut app = test_app();
    app.handle_key(make_key(KeyCode::Char('d')));
    assert_eq!(app.app.mode, Mode::Confirm);

    app.handle_key(make_key(KeyCode::Char('n')));
    assert_eq!(app.app.mode, Mode::Normal);
    assert_eq!(app.app.column_cards(0).len(), 2); // unchanged
}

#[test]
fn any_other_key_drops_the_confirmation() {
    let mut app = test_app();
    app.handle_key(make_key(KeyCode::Char('d')));
    app.handle_key(make_key(KeyCode::Enter));
    assert_eq!(app.app.mode, Mode::Normal);
    assert_eq!(app.app.pending_confirm, None);
    assert_eq!(app.app.message, None);
    assert_eq!(app.app.board.cards.len(), 3);
    assert_eq!(app.store.saves, 0);
}

#[test]
fn help_mode_toggle() {
    let mut app = test_app();
    app.handle_key(make_key(KeyCode::Char('?')));
    assert_eq!(app.app.mode, Mode::Help);
    app.handle_key(make_key(KeyCode::Esc));
    assert_eq!(app.app.mode, Mode::Normal);
}

#[test]
fn help_ignores_other_keys() {
    let mut app = test_app();
    app.handle_key(make_key(KeyCode::Char('?')));
    for key in ['j', 'a', 'x', 'b'] {
        app.handle_key(make_key(KeyCode::Char(key)));
        assert_eq!(app.app.mode, Mode::Help);
    }
    assert_eq!(app.app.selected_row, 0);
    assert_eq!(app.app.board.cards.len(), 3);
    app.handle_key(make_key(KeyCode::Char('q')));
    assert_eq!(app.app.mode, Mode::Normal);
    assert!(!app.app.should_quit);
    app.handle_key(make_key(KeyCode::Char('?')));
    app.handle_key(make_key(KeyCode::Char('?')));
    assert_eq!(app.app.mode, Mode::Normal);
}

#[test]
fn refresh_reloads_board() {
    let mut app = test_app();
    app.handle_key(make_key(KeyCode::Char('r')));
    assert!(app.app.message.as_ref().unwrap().contains("reloaded"));
}

#[test]
fn refresh_takes_the_stored_board_and_clamps_the_row() {
    let mut app = test_app();
    app.app.selected_row = 1;
    let mut stored = app.store.load_board("default").unwrap();
    stored.cards.remove(1);
    app.store.save_board(&stored).unwrap();
    app.handle_key(make_key(KeyCode::Char('r')));
    assert_eq!(app.app.board, stored);
    assert_eq!(app.app.selected_row, 0);
    assert_eq!(app.app.message.as_deref(), Some("Board reloaded."));
    app.store.fail_config = true;
    app.handle_key(make_key(KeyCode::Char('r')));
    assert_eq!(app.app.message.as_deref(), Some("Reload failed: IO error: no config"));
    app.store.fail_config = false;
    app.store.config.default_board = "missing".into();
    app.handle_key(make_key(KeyCode::Char('r')));
    assert_eq!(app.app.message.as_deref(), Some("Reload failed: Board not found: missing"));
    assert_eq!(app.app.board, stored);
}

#[test]
fn switching_columns_clamps_row() {
    let mut app = test_app();
    // In todo col (2 items), select row 1
    app.handle_key(make_key(KeyCode::Char('j')));
    assert_eq!(app.app.selected_row, 1);

    // Move to doing (1 item) — row should clamp to 0
    app.handle_key(make_key(KeyCode::Char('l')));
    assert_eq!(app.app.selected_col, 1);
    assert_eq!(app.app.selected_row, 0);
}

#[test]
fn empty_insert_does_nothing() {
    let mut app = test_app();
    app.handle_key(make_key(KeyCode::Char('a')));
    app.handle_key(make_key(KeyCode::Enter)); // empty title
    assert_eq!(app.app.column_cards(0).len(), 2); // unchanged
}

#[test]
fn empty_insert_returns_to_normal_without_saving() {
    let mut app = test_app();
    app.handle_key(make_key(KeyCode::Char('a')));
    app.handle_key(make_key(KeyCode::Enter));
    assert_eq!(app.app.mode, Mode::Normal);
    assert_eq!(app.store.saves, 0);
    assert_eq!(app.app.board.cards.len(), 3);
}

#[test]
fn insert_without_a_column_adds_nothing() {
    let board = Board { name: "bare".into(), columns: Vec::new(), cards: Vec::new() };
    let mut app = App::new(board);
    app.handle_key(make_key(KeyCode::Char('l')));
    app.handle_key(make_key(KeyCode::Right));
    assert_eq!(app.selected_col, 0);
    app.handle_key(make_key(KeyCode::Char('a')));
    app.handle_key(make_key(KeyCode::Char('x')));
    let request = app.handle_key(make_key(KeyCode::Enter));
    assert_eq!(request, Request::Nothing);
    assert_eq!(app.mode, Mode::Normal);
    assert!(app.board.cards.is_empty());
    assert_eq!(app.input_buf, "");
}

#[test]
fn arrow_keys_work() {
    let mut app = test_app();
    app.handle_key(make_key(KeyCode::Down));
    assert_eq!(app.app.selected_row, 1);
    app.handle_key(make_key(KeyCode::Up));
    assert_eq!(app.app.selected_row, 0);
    app.handle_key(make_key(KeyCode::Right));
    assert_eq!(app.app.selected_col, 1);
    app.handle_key(make_key(KeyCode::Left));
    assert_eq!(app.app.selected_col, 0);
}

#[test]
fn a_failed_save_shows_and_keeps_the_change() {
    let mut app = test_app();
    app.store.fail_save = true;
    app.handle_key(make_shift_key(KeyCode::Char('K')));
    assert_eq!(app.app.message.as_deref(), Some("Save failed: IO error: disk full"));
    app.handle_key(make_key(KeyCode::Char('x')));
    assert!(app.app.board.cards[0].archived);
    assert_eq!(app.app.message.as_deref(), Some("Save failed: IO error: disk full"));
    app.handle_key(make_key(KeyCode::Char('a')));
    app.handle_key(make_key(KeyCode::Char('N')));
    app.handle_key(make_key(KeyCode::Enter));
    assert_eq!(app.app.board.cards.len(), 4);
    assert_eq!(app.app.selected_row, 0);
    assert_eq!(app.app.mode, Mode::Normal);
    assert_eq!(app.app.message.as_deref(), Some("Save failed: IO error: disk full"));
    assert_eq!(app.store.load_board("default").unwrap().cards.len(), 3);
    assert!(!app.app.should_quit);
}

#[test]
fn a_reply_nobody_waits_for_changes_nothing() {
    let mut app = test_app();
    let request = app.app.handle_reply(Reply::Saved(Err("late".into())));
    assert_eq!(request, Request::Nothing);
    assert_eq!(app.app.message, None);
    let request = app.app.handle_reply(Reply::Board(Ok(Board::default_board())));
    assert_eq!(request, Request::Nothing);
    assert_eq!(app.app.board.cards.len(), 3);
    assert_eq!(app.app.save_board(), Request::SaveBoard);
    assert_eq!(app.app.waiting, Waiting::Saved);
    assert_eq!(app.app.reload_board(), Request::LoadConfig);
    assert_eq!(app.app.waiting, Waiting::ReloadConfig);
    let request = app.app.handle_reply(Reply::Boards(Ok(vec!["x".into()])));
    assert_eq!(request, Request::Nothing);
    assert_eq!(app.app.mode, Mode::Normal);
    assert_eq!(app.app.waiting, Waiting::Nothing);
}

// --- Board picker tests ---

fn test_app_with_boards() -> Session {
    let mut store = Store::new();

    // Create additional boards
    store.create_board(
        "sprint-1",
        vec![
            Column { name: "todo".into(), wip_limit: None },
            Column { name: "doing".into(), wip_limit: None },
            Column { name: "done".into(), wip_limit: None },
        ],
    );
    store.create_board("backlog", vec![Column { name: "ideas".into(), wip_limit: None }]);

    let app = App::new(store.load_board(&store.config.default_board).unwrap());
    Session { store, app }
}

#[test]
fn board_picker_opens_with_b() {
    let mut app = test_app_with_boards();
    app.handle_key(make_key(KeyCode::Char('b')));
    assert_eq!(app.app.mode, Mode::BoardPicker);
    assert_eq!(app.app.board_list.len(), 3); // backlog, default, sprint-1 (sorted)
    // Current board is "default", should be pre-selected
    let current_name = &app.app.board_list[app.app.board_selected];
    assert_eq!(current_name, "default");
}

#[test]
fn board_picker_shows_a_failure_to_list() {
    let mut app = test_app_with_boards();
    app.store.fail_list = true;
    app.handle_key(make_key(KeyCode::Char('b')));
    assert_eq!(app.app.mode, Mode::Normal);
    assert_eq!(app.app.message.as_deref(), Some("Failed to list boards: IO error: unreadable"));
    assert!(app.app.board_list.is_empty());
    app.store.fail_list = false;
    app.app.board.name = "unlisted".into();
    app.handle_key(make_key(KeyCode::Char('b')));
    assert_eq!(app.app.board_selected, 0);
    assert_eq!(
        app.app.message.as_deref(),
        Some("Switch board (Enter to select, Esc to cancel):")
    );
}

#[test]
fn board_picker_navigate_jk() {
    let mut app = test_app_with_boards();
    app.handle_key(make_key(KeyCode::Char('b')));
    let initial = app.app.board_selected;

    // Move down
    app.handle_key(make_key(KeyCode::Char('j')));
    assert_eq!(app.app.board_selected, initial + 1);

    // Move back up
    app.handle_key(make_key(KeyCode::Char('k')));
    assert_eq!(app.app.board_selected, initial);
}

#[test]
fn board_picker_navigate_stays_in_bounds() {
    let mut app = test_app_with_boards();
    app.handle_key(make_key(KeyCode::Char('b')));

    // Move to top then try to go further up
    app.app.board_selected = 0;
    app.handle_key(make_key(KeyCode::Char('k')));
    assert_eq!(app.app.board_selected, 0);

    // Move to bottom then try to go further down
    app.app.board_selected = app.app.board_list.len() - 1;
    let last = app.app.board_selected;
    app.handle_key(make_key(KeyCode::Char('j')));
    assert_eq!(app.app.board_selected, last);
}

#[test]
fn board_picker_cancel_esc() {
    let mut app = test_app_with_boards();
    app.handle_key(make_key(KeyCode::Char('b')));
    assert_eq!(app.app.mode, Mode::BoardPicker);

    app.handle_key(make_key(KeyCode::Esc));
    assert_eq!(app.app.mode, Mode::Normal);
    assert_eq!(app.app.board.name, "default"); // unchanged
}

#[test]
fn board_picker_switch_board() {
    let mut app = test_app_with_boards();
    app.handle_key(make_key(KeyCode::Char('b')));

    // boards are sorted: backlog, default, sprint-1
    // current is "default" (index 1), navigate to "sprint-1" (index 2)
    let sprint_idx = app.app.board_list.iter().position(|b| b == "sprint-1").unwrap();
    app.app.board_selected = sprint_idx;

    app.handle_key(make_key(KeyCode::Enter));
    assert_eq!(app.app.mode, Mode::Normal);
    assert_eq!(app.app.board.name, "sprint-1");
    assert_eq!(app.app.selected_col, 0);
    assert_eq!(app.app.selected_row, 0);
    assert!(app.app.message.as_ref().unwrap().contains("sprint-1"));

    // Verify config was persisted
    let config = app.store.config.clone();
    assert_eq!(config.default_board, "sprint-1");
}

#[test]
fn board_picker_switch_resets_the_selection() {
    let mut app = test_app_with_boards();
    let mut board = app.store.load_board("default").unwrap();
    for title in ["a", "b"] {
        let mut card = Card::new(title, "doing");
        card.order = board.next_order("doing");
        board.cards.push(card);
    }
    app.store.save_board(&board).unwrap();
    app.app = App::new(board);
    app.handle_key(make_key(KeyCode::Char('l')));
    app.handle_key(make_key(KeyCode::Char('j')));
    assert_eq!((app.app.selected_col, app.app.selected_row), (1, 1));
    app.handle_key(make_key(KeyCode::Char('b')));
    app.handle_key(make_key(KeyCode::Char('k')));
    app.handle_key(make_key(KeyCode::Enter));
    assert_eq!(app.app.board.name, "backlog");
    assert_eq!((app.app.selected_col, app.app.selected_row), (0, 0));
    assert_eq!(app.app.message.as_deref(), Some("Switched to board: backlog"));
    assert_eq!(app.store.config.version, "0.1.0");
}

#[test]
fn board_picker_failed_switch_keeps_the_board() {
    let mut app = test_app_with_boards();
    app.handle_key(make_key(KeyCode::Char('/')));
    app.handle_key(make_key(KeyCode::Char('t')));
    app.handle_key(make_key(KeyCode::Enter));
    app.handle_key(make_key(KeyCode::Char('l')));
    app.handle_key(make_key(KeyCode::Char('b')));
    app.handle_key(make_key(KeyCode::Char('j')));
    app.store.boards.retain(|b| b.name != "sprint-1");
    app.handle_key(make_key(KeyCode::Enter));
    assert_eq!(app.app.mode, Mode::Normal);
    assert_eq!(app.app.board.name, "default");
    assert_eq!(app.app.message.as_deref(), Some("Load board failed: Board not found: sprint-1"));
    assert_eq!(app.store.config.default_board, "default");
    assert_eq!(app.store.config_saves, 0);
    app.handle_key(make_key(KeyCode::Char('b')));
    app.handle_key(make_key(KeyCode::Char('k')));
    app.store.fail_config = true;
    app.handle_key(make_key(KeyCode::Enter));
    assert_eq!(app.app.board.name, "default");
    assert_eq!(app.app.message.as_deref(), Some("Load config failed: IO error: no config"));
    assert_eq!(app.store.config.default_board, "default");
    assert_eq!(app.store.config_saves, 0);
    // a failure to save the configuration
    app.store.fail_config = false;
    app.store.fail_config_save = true;
    app.handle_key(make_key(KeyCode::Char('b')));
    app.handle_key(make_key(KeyCode::Char('k')));
    app.handle_key(make_key(KeyCode::Enter));
    assert_eq!(app.app.message.as_deref(), Some("Save config failed: IO error: read-only"));
    assert_eq!(app.app.board.name, "default");
    assert_eq!(app.store.config.default_board, "default");
    assert_eq!(app.store.config_saves, 0);
    // the selection and the search are as they were
    assert_eq!((app.app.selected_col, app.app.selected_row), (1, 0));
    assert!(app.app.search_active);
    assert_eq!(app.app.search_buf, "t");
    assert_eq!(app.app.mode, Mode::Normal);
}

#[test]
fn a_switch_saves_the_configuration_after_the_board_has_loaded() {
    let mut app = test_app_with_boards();
    let backlog = app.store.load_board("backlog").unwrap();
    let held = app.app.board.clone();
    app.app.mode = Mode::BoardPicker;
    app.app.board_list = app.store.list_boards().unwrap();
    app.app.board_selected = 0;
    assert_eq!(app.app.board_list[0], "backlog");
    assert_eq!(app.app.handle_key(make_key(KeyCode::Enter)), Request::LoadBoard("backlog".into()));
    assert_eq!(app.app.mode, Mode::Normal);
    let request = app.app.handle_reply(Reply::Board(Ok(backlog.clone())));
    assert_eq!(request, Request::LoadConfig);
    assert_eq!(app.app.board, held);
    let request = app.app.handle_reply(Reply::Config(Ok(RepoConfig::default())));
    assert_eq!(request, Request::SaveConfig(RepoConfig::default().with_board("backlog")));
    assert_eq!(app.app.board, held);
    assert_eq!(app.app.message, None);
    let request = app.app.handle_reply(Reply::ConfigSaved(Ok(())));
    assert_eq!(request, Request::Nothing);
    assert_eq!(app.app.board, backlog);
    assert_eq!(app.app.message.as_deref(), Some("Switched to board: backlog"));
    assert_eq!(app.app.waiting, Waiting::Nothing);
    // each failure ends the switch with nothing more asked
    for step in 0..3 {
        let mut app = test_app_with_boards();
        app.app.mode = Mode::BoardPicker;
        app.app.board_list = app.store.list_boards().unwrap();
        app.app.board_selected = 0;
        let mut request = app.app.handle_key(make_key(KeyCode::Enter));
        let mut asked = vec![request.clone()];
        for at in 0..=step {
            let reply = match (&request, at == step) {
                (Request::LoadBoard(_), false) => Reply::Board(Ok(backlog.clone())),
                (Request::LoadBoard(_), true) => Reply::Board(Err("gone".into())),
                (Request::LoadConfig, false) => Reply::Config(Ok(RepoConfig::default())),
                (Request::LoadConfig, true) => Reply::Config(Err("gone".into())),
                (Request::SaveConfig(_), _) => Reply::ConfigSaved(Err("gone".into())),
                other => panic!("unexpected request {other:?}"),
            };
            request = app.app.handle_reply(reply);
            asked.push(request.clone());
        }
        assert_eq!(asked.len(), step + 2);
        assert_eq!(asked[step + 1], Request::Nothing);
        assert_eq!(
            asked.iter().filter(|r| matches!(r, Request::SaveConfig(_))).count(),
            usize::from(step == 2)
        );
        assert_eq!(app.app.board, held);
        assert_eq!(app.app.waiting, Waiting::Nothing);
        let text = ["Load board failed: gone", "Load config failed: gone", "Save config failed: gone"];
        assert_eq!(app.app.message.as_deref(), Some(text[step]));
    }
}

#[test]
fn board_picker_select_same_board_noop() {
    let mut app = test_app_with_boards();
    app.handle_key(make_key(KeyCode::Char('b')));

    // "default" is already selected, press Enter
    let default_idx = app.app.board_list.iter().position(|b| b == "default").unwrap();
    app.app.board_selected = default_idx;

    app.handle_key(make_key(KeyCode::Enter));
    assert_eq!(app.app.mode, Mode::Normal);
    assert_eq!(app.app.board.name, "default");
}

#[test]
fn board_picker_arrow_keys() {
    let mut app = test_app_with_boards();
    app.handle_key(make_key(KeyCode::Char('b')));
    let initial = app.app.board_selected;

    app.handle_key(make_key(KeyCode::Down));
    assert_eq!(app.app.board_selected, initial + 1);

    app.handle_key(make_key(KeyCode::Up));
    assert_eq!(app.app.board_selected, initial);
}

#[test]
fn board_picker_q_leaves_and_enter_past_the_list_too() {
    let mut app = test_app_with_boards();
    app.handle_key(make_key(KeyCode::Char('b')));
    app.handle_key(make_key(KeyCode::Char('q')));
    assert_eq!(app.app.mode, Mode::Normal);
    assert!(!app.app.should_quit);
    assert_eq!(app.app.message, None);
    app.handle_key(make_key(KeyCode::Char('b')));
    app.app.board_selected = 17;
    app.handle_key(make_key(KeyCode::Enter));
    assert_eq!(app.app.mode, Mode::Normal);
    assert_eq!(app.app.board.name, "default");
    assert_eq!(app.store.config.default_board, "default");
}

#[test]
fn board_picker_resets_search_on_switch() {
    let mut app = test_app_with_boards();

    // Activate search first
    app.handle_key(make_key(KeyCode::Char('/')));
    app.handle_key(make_key(KeyCode::Char('x')));
    app.handle_key(make_key(KeyCode::Enter));
    assert!(app.app.search_active);

    // Open board picker and switch
    app.handle_key(make_key(KeyCode::Char('b')));
    let sprint_idx = app.app.board_list.iter().position(|b| b == "sprint-1").unwrap();
    app.app.board_selected = sprint_idx;
    app.handle_key(make_key(KeyCode::Enter));

    assert!(!app.app.search_active);
    assert!(app.app.search_buf.is_empty());
}

// --- Room for orders ---

/// A session whose board has a card of the highest order in `done`, the
/// last column, and two ordinary cards in `todo`.
fn full_last_column() -> Session {
    let mut s = test_app();
    let mut top = Card::new("Top", "done");
    top.order = u32::MAX;
    s.app.board.cards.push(top);
    s.store.save_board(&s.app.board).unwrap();
    s.store.saves = 0;
    s
}

#[test]
fn only_the_key_that_overflows_lacks_room() {
    let mut s = full_last_column();
    // in `todo`: every key has room but none is asked of `done`
    for key in ['j', 'k', 'h', 'l', 'g', 'G', 'a', 'd', 'K', 'J', 'x', '/', '?', 'r', 'b', 'q', 'L', 'H', '<', '>'] {
        assert!(s.app.has_room_for(make_key(KeyCode::Char(key))), "{key}");
    }
    s.handle_key(make_shift_key(KeyCode::Char('K')));
    assert_eq!(titles(&s.app, 0), vec!["Task A", "Task B"]);
    s.handle_key(make_key(KeyCode::Char('j')));
    s.handle_key(make_shift_key(KeyCode::Char('K')));
    assert_eq!(titles(&s.app, 0), vec!["Task B", "Task A"]);
    s.handle_key(make_shift_key(KeyCode::Char('J')));
    assert_eq!(titles(&s.app, 0), vec!["Task A", "Task B"]);
    // in `doing`, next to `done`: a move right would pass the highest order
    s.handle_key(make_key(KeyCode::Char('l')));
    assert!(!s.app.has_room_for(make_shift_key(KeyCode::Char('L'))));
    assert!(!s.app.has_room_for(make_key(KeyCode::Char('>'))));
    assert!(s.app.has_room_for(make_shift_key(KeyCode::Char('H'))));
    assert!(s.app.has_room_for(make_shift_key(KeyCode::Char('K'))));
    assert!(s.app.has_room_for(make_shift_key(KeyCode::Char('J'))));
    assert!(s.app.has_room_for(make_key_mod(KeyCode::Char('c'), KeyModifiers::control())));
    // in `done`: the card can be hoisted, moved left and archived, not demoted
    s.handle_key(make_key(KeyCode::Char('l')));
    assert_eq!(s.app.selected_col, 2);
    assert!(s.app.has_room_for(make_shift_key(KeyCode::Char('K'))));
    assert!(!s.app.has_room_for(make_shift_key(KeyCode::Char('J'))));
    assert!(s.app.has_room_for(make_shift_key(KeyCode::Char('H'))));
    assert!(s.app.has_room_for(make_key(KeyCode::Char('x'))));
}

#[test]
fn move_right_in_a_full_last_column_does_nothing() {
    let mut s = full_last_column();
    s.app.selected_col = 2;
    let before = s.app.board.clone();
    assert!(s.app.has_room_for(make_shift_key(KeyCode::Char('L'))));
    let request = s.app.handle_key(make_shift_key(KeyCode::Char('L')));
    assert_eq!(request, Request::Nothing);
    assert_eq!(s.app.board, before);
    assert_eq!(s.app.message, None);
    assert_eq!((s.app.selected_col, s.app.selected_row), (2, 0));
}

#[test]
fn insert_asks_for_room_only_where_it_adds() {
    let mut s = full_last_column();
    s.app.selected_col = 2;
    s.handle_key(make_key(KeyCode::Char('a')));
    // an empty title adds nothing and needs no room
    assert!(s.app.has_room_for(make_key(KeyCode::Enter)));
    s.handle_key(make_key(KeyCode::Enter));
    assert_eq!(s.app.mode, Mode::Normal);
    assert_eq!(s.app.board.cards.len(), 4);
    s.handle_key(make_key(KeyCode::Char('a')));
    s.handle_key(make_key(KeyCode::Char('N')));
    assert!(!s.app.has_room_for(make_key(KeyCode::Enter)));
    assert!(s.app.has_room_for(make_key(KeyCode::Esc)));
    assert!(s.app.has_room_for(make_key(KeyCode::Char('x'))));
    s.handle_key(make_key(KeyCode::Esc));
    // in another column the same title is added
    s.app.selected_col = 0;
    s.handle_key(make_key(KeyCode::Char('a')));
    s.handle_key(make_key(KeyCode::Char('N')));
    s.handle_key(make_key(KeyCode::Enter));
    assert_eq!(s.app.board.cards.last().unwrap().order, 2);
    assert_eq!(s.store.saves, 1);
}

#[test]
fn hoist_needs_room_for_the_siblings_only() {
    let mut s = test_app();
    s.app.board.cards[1].order = u32::MAX;
    s.app.board.cards[2].order = u32::MAX;
    // Task A is selected; its sibling Task B cannot be raised
    assert!(!s.app.has_room_for(make_shift_key(KeyCode::Char('K'))));
    // Task B itself can be hoisted: Task A rises to 1
    s.handle_key(make_key(KeyCode::Char('j')));
    assert!(s.app.has_room_for(make_shift_key(KeyCode::Char('K'))));
    s.handle_key(make_shift_key(KeyCode::Char('K')));
    assert_eq!(s.app.board.cards[1].order, 0);
    assert_eq!(s.app.board.cards[0].order, 1);
    assert_eq!(s.app.board.cards[2].order, u32::MAX);
}

#[test]
fn every_key_keeps_the_selection_in_view() {
    let keys = [
        KeyCode::Char('j'), KeyCode::Char('G'), KeyCode::Char('x'), KeyCode::Char('l'),
        KeyCode::Char('L'), KeyCode::Char('G'), KeyCode::Char('H'), KeyCode::Char('/'),
        KeyCode::Char('b'), KeyCode::Enter, KeyCode::Char('J'), KeyCode::Char('d'),
        KeyCode::Char('y'), KeyCode::Char('a'), KeyCode::Char('z'), KeyCode::Enter,
        KeyCode::Char('K'), KeyCode::Esc, KeyCode::Char('h'), KeyCode::Char('d'),
        KeyCode::Char('y'), KeyCode::Char('d'), KeyCode::Char('y'), KeyCode::Right,
        KeyCode::Right, KeyCode::Char('G'), KeyCode::Char('<'), KeyCode::Up,
    ];
    let mut s = test_app();
    for code in keys {
        s.handle_key(make_key(code));
        let shown = s.app.column_cards(s.app.selected_col).len();
        assert!(s.app.selected_col < s.app.board.columns.len());
        assert!(s.app.selected_row == 0 || s.app.selected_row < shown, "{code:?}");
    }
}

// --- Moving between columns ---

/// The identifiers of the cards that a column shows, in their sequence.
fn shown_ids(app: &App, col: usize) -> Vec<String> {
    app.column_cards(col).iter().map(|c| c.id.clone()).collect()
}

/// A board with four cards in `todo` and two in `doing`, titles chosen so
/// that a search for `x` shows some of them.
fn mixed_board() -> Session {
    let mut s = test_app();
    s.app.board.cards.clear();
    for (id, title, column, order) in [
        ("a", "ax", "todo", 0),
        ("b", "b", "todo", 1),
        ("c", "cX", "todo", 2),
        ("d", "dx", "todo", 3),
        ("e", "ex", "doing", 0),
        ("f", "f", "doing", 5),
    ] {
        let mut card = Card::with_id(id.into(), title, column, Timestamp { secs: 1, nanos: 0 });
        card.order = order;
        s.app.board.cards.push(card);
    }
    s
}

#[test]
fn a_move_right_changes_two_lists_and_one_card() {
    for (search, row) in [(false, 0), (false, 1), (false, 3), (true, 0), (true, 1), (true, 2)] {
        let mut s = mixed_board();
        if search {
            s.app.search_active = true;
            s.app.search_buf = "X".into();
        }
        s.app.selected_row = row;
        let before = s.app.board.clone();
        let left = shown_ids(&s.app, 0);
        let right = shown_ids(&s.app, 1);
        let moved = left[row].clone();
        let at = Timestamp { secs: 77, nanos: 5 };
        assert!(s.app.can_move_to(1));
        s.app.move_card_right(at);
        assert_eq!(s.app.request(), Request::SaveBoard);
        // the lists
        let mut rest = left.clone();
        rest.remove(row);
        assert_eq!(shown_ids(&s.app, 0), rest);
        let mut more = right.clone();
        more.push(moved.clone());
        assert_eq!(shown_ids(&s.app, 1), more);
        // the cards
        assert_eq!(s.app.board.columns, before.columns);
        assert_eq!(s.app.board.cards.len(), before.cards.len());
        for (new, old) in s.app.board.cards.iter().zip(before.cards.iter()) {
            if old.id == moved {
                let mut expected = old.clone();
                expected.column = "doing".into();
                expected.order = 6;
                expected.updated_at = at;
                assert_eq!(new, &expected);
            } else {
                assert_eq!(new, old);
            }
        }
        // the selection
        assert_eq!(s.app.selected_col, 0);
        assert_eq!(s.app.selected_row, row.min(rest.len().max(1) - 1));
        assert_eq!(s.app.message.as_deref(), Some("Moved \u{2192} doing"));
    }
}

#[test]
fn a_move_left_is_the_same_the_other_way() {
    let mut s = mixed_board();
    s.app.selected_col = 1;
    s.app.selected_row = 1;
    assert!(s.app.can_move_to(0));
    s.app.move_card_left(Timestamp { secs: 9, nanos: 0 });
    assert_eq!(shown_ids(&s.app, 1), vec!["e"]);
    assert_eq!(shown_ids(&s.app, 0), vec!["a", "b", "c", "d", "f"]);
    assert_eq!(s.app.board.cards[5].order, 4);
    assert_eq!((s.app.selected_col, s.app.selected_row), (1, 0));
    assert_eq!(s.app.request(), Request::SaveBoard);
    // in the first column nothing moves
    let mut s = mixed_board();
    let before = s.app.board.clone();
    s.app.move_card_left(Timestamp { secs: 9, nanos: 0 });
    assert_eq!(s.app.board, before);
    assert_eq!(s.app.request(), Request::Nothing);
    assert_eq!(s.app.message, None);
}

#[test]
fn a_move_right_in_the_last_column_asks_for_no_save() {
    let mut s = mixed_board();
    let mut last = Card::with_id("z".into(), "z", "done", Timestamp { secs: 1, nanos: 0 });
    last.order = u32::MAX;
    s.app.board.cards.push(last);
    s.app.selected_col = 2;
    let before = s.app.board.clone();
    assert!(s.app.can_move_to(3));
    s.app.move_card_right(Timestamp { secs: 9, nanos: 0 });
    assert_eq!(s.app.board, before);
    assert_eq!(s.app.request(), Request::Nothing);
    assert_eq!((s.app.selected_col, s.app.selected_row, s.app.mode), (2, 0, Mode::Normal));
    assert_eq!(s.app.message, None);
    s.store.saves = 0;
    s.handle_key(make_shift_key(KeyCode::Char('L')));
    s.handle_key(make_key(KeyCode::Char('>')));
    assert_eq!(s.store.saves, 0);
    assert_eq!(s.app.board, before);
    // next to a full column the move has no room
    s.app.selected_col = 1;
    assert!(!s.app.can_move_to(2));
    assert!(s.app.can_move_to(0));
}
