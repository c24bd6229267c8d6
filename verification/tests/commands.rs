use kuk::cli::commands::{
    can_add, can_demote, can_hoist, can_move, add, add_at, archive, archive_at, assign, assign_at, board, default_board,
    default_board_name, default_column, default_columns, delete, demote, demote_at, hoist,
    hoist_at, label, label_at, list, move_card, move_card_at, projects,
};
use kuk::clock::Timestamp;
use kuk::error::KukError;
use kuk::model::board::{Board, Column};
use kuk::model::card::Card;
use kuk::model::index::GlobalIndex;

fn at(secs: i64) -> Timestamp {
    Timestamp { secs, nanos: 7 }
}

fn card(id: &str, title: &str, column: &str, order: u32) -> Card {
    let mut card = Card::with_id(id.to_string(), title, column, at(0));
    card.order = order;
    card
}

fn sample() -> Board {
    let mut board = Board::default_board();
    board.cards.push(card("id-a", "Task A", "todo", 0));
    board.cards.push(card("id-b", "Task B", "todo", 1));
    board.cards.push(card("id-c", "Task C", "doing", 0));
    board.cards.push(card("id-d", "Task D", "todo", 5));
    board
}

fn orders(board: &Board) -> Vec<(&str, &str, u32)> {
    board.cards.iter().map(|c| (c.id.as_str(), c.column.as_str(), c.order)).collect()
}

#[test]
fn add_puts_the_card_at_the_bottom() {
    let mut board = sample();
    let report = add_at(
        &mut board,
        "New",
        "todo",
        vec!["bug".into(), "ui".into()],
        Some("leslie".into()),
        "id-n".into(),
        at(9),
    )
    .unwrap();
    assert_eq!(report.line, "Added: New → todo");
    assert_eq!(report.id, "id-n");
    assert_eq!(report.title, "New");
    let new = board.cards.last().unwrap();
    assert_eq!(new.order, 6);
    assert_eq!(new.column, "todo");
    assert_eq!(new.labels, vec!["bug", "ui"]);
    assert_eq!(new.assignee.as_deref(), Some("leslie"));
    assert_eq!(new.created_at, at(9));
    assert_eq!(new.updated_at, at(9));
    assert_eq!(board.cards.len(), 5);
    let first = add_at(&mut board, "First", "done", Vec::new(), None, "id-f".into(), at(9)).unwrap();
    assert_eq!(first.line, "Added: First → done");
    assert_eq!(board.cards.last().unwrap().order, 0);
}

#[test]
fn add_refuses_an_unknown_column() {
    let mut board = sample();
    let before = board.clone();
    let result = add_at(&mut board, "New", "blocked", Vec::new(), None, "id-n".into(), at(9));
    assert_eq!(result, Err(KukError::ColumnNotFound("blocked".into())));
    assert_eq!(board, before);
    assert_eq!(add(&mut board, "New", "nope", Vec::new(), None).unwrap_err().message(), "Column not found: nope");
}

#[test]
fn add_draws_a_fresh_identifier() {
    let mut board = sample();
    let one = add(&mut board, "One", "doing", Vec::new(), None).unwrap();
    let two = add(&mut board, "Two", "doing", Vec::new(), None).unwrap();
    assert_eq!(one.id.len(), 26);
    assert_ne!(one.id, two.id);
    assert_eq!(board.find_card(&two.id).unwrap().order, 2);
    assert!(board.find_card(&two.id).unwrap().created_at.secs > 1_600_000_000);
}

#[test]
fn move_changes_column_and_order() {
    let mut board = sample();
    let report = move_card_at(&mut board, "1", "doing", at(3)).unwrap();
    assert_eq!(report.line, "Moved: Task A → doing");
    assert_eq!(report.id, "id-a");
    assert_eq!(
        orders(&board),
        vec![("id-a", "doing", 1), ("id-b", "todo", 1), ("id-c", "doing", 0), ("id-d", "todo", 5)]
    );
    assert_eq!(board.cards[0].updated_at, at(3));
    assert_eq!(board.cards[1].updated_at, at(0));
    // within its own column a card moves to the bottom
    let report = move_card_at(&mut board, "id-b", "todo", at(4)).unwrap();
    assert_eq!(report.title, "Task B");
    assert_eq!(board.cards[1].order, 6);
}

#[test]
fn move_checks_the_column_before_the_card() {
    let mut board = sample();
    let before = board.clone();
    assert_eq!(
        move_card_at(&mut board, "nope", "blocked", at(3)),
        Err(KukError::ColumnNotFound("blocked".into()))
    );
    assert_eq!(
        move_card_at(&mut board, "nope", "done", at(3)),
        Err(KukError::CardNotFound("nope".into()))
    );
    assert_eq!(move_card(&mut board, "9", "done"), Err(KukError::CardNotFound("9".into())));
    assert_eq!(board, before);
    assert!(move_card(&mut board, "id-c", "done").is_ok());
    assert_eq!(board.cards[2].column, "done");
}

#[test]
fn hoist_renumbers_the_siblings() {
    let mut board = sample();
    board.cards.push(card("id-x", "Gone", "todo", 2));
    board.cards[4].archived = true;
    let report = hoist_at(&mut board, "id-d", at(3)).unwrap();
    assert_eq!(report.line, "Hoisted: Task D to top of todo");
    assert_eq!(
        orders(&board),
        vec![
            ("id-a", "todo", 1),
            ("id-b", "todo", 2),
            ("id-c", "doing", 0),
            ("id-d", "todo", 0),
            ("id-x", "todo", 2),
        ]
    );
    assert_eq!(board.cards[3].updated_at, at(3));
    assert_eq!(board.cards[0].updated_at, at(0));
    assert_eq!(hoist(&mut board, "77"), Err(KukError::CardNotFound("77".into())));
    assert!(hoist(&mut board, "id-c").is_ok());
    assert_eq!(board.cards[2].order, 0);
}

#[test]
fn hoisted_card_is_below_every_sibling() {
    let mut board = sample();
    hoist_at(&mut board, "3", at(1)).unwrap();
    // rank 3 of the whole board is Task B: orders are A 0, C 0, B 1, D 5
    let hoisted = board.find_card("id-b").unwrap();
    assert_eq!(hoisted.order, 0);
    for sibling in board.cards.iter().filter(|c| c.column == "todo" && c.id != "id-b") {
        assert!(hoisted.order < sibling.order);
    }
    assert_eq!(board.find_card("id-a").unwrap().order, 1);
    assert_eq!(board.find_card("id-d").unwrap().order, 6);
    assert_eq!(board.find_card("id-c").unwrap().order, 0);
}

#[test]
fn demote_gives_the_next_order() {
    let mut board = sample();
    let report = demote_at(&mut board, "id-a", at(3)).unwrap();
    assert_eq!(report.line, "Demoted: Task A to bottom of todo");
    assert_eq!(board.cards[0].order, 6);
    assert_eq!(board.cards[0].updated_at, at(3));
    assert!(board.cards.iter().filter(|c| c.column == "todo").all(|c| c.order <= 6));
    assert_eq!(board.cards[1].order, 1);
    assert_eq!(demote(&mut board, "0"), Err(KukError::CardNotFound("0".into())));
    demote(&mut board, "id-c").unwrap();
    assert_eq!(board.cards[2].order, 1);
}

#[test]
fn archive_hides_the_card_from_ranks() {
    let mut board = sample();
    let report = archive_at(&mut board, "1", at(3)).unwrap();
    assert_eq!(report.line, "Archived: Task A");
    assert!(board.cards[0].archived);
    assert_eq!(board.cards[0].updated_at, at(3));
    assert_eq!(board.cards.len(), 4);
    assert_eq!(board.resolve_card_id("1").as_deref(), Some("id-c"));
    assert_eq!(board.resolve_card_id("4"), None);
    // by identifier it is still found
    assert_eq!(archive(&mut board, "id-a").unwrap().title, "Task A");
    assert_eq!(archive(&mut board, "4"), Err(KukError::CardNotFound("4".into())));
}

#[test]
fn delete_removes_the_card() {
    let mut board = sample();
    let report = delete(&mut board, "2").unwrap();
    assert_eq!(report.line, "Deleted: Task C");
    assert_eq!(report.id, "id-c");
    assert_eq!(orders(&board), vec![("id-a", "todo", 0), ("id-b", "todo", 1), ("id-d", "todo", 5)]);
    assert_eq!(delete(&mut board, "id-c"), Err(KukError::CardNotFound("id-c".into())));
    assert_eq!(board.cards.len(), 3);
}

#[test]
fn label_adds_once_and_removes() {
    let mut board = sample();
    assert_eq!(label_at(&mut board, "id-a", "add", "bug", at(1)).unwrap().line, "Labels on Task A: [bug]");
    assert_eq!(
        label_at(&mut board, "id-a", "add", "ui", at(2)).unwrap().line,
        "Labels on Task A: [bug, ui]"
    );
    assert_eq!(
        label_at(&mut board, "id-a", "add", "bug", at(3)).unwrap().line,
        "Labels on Task A: [bug, ui]"
    );
    assert_eq!(board.cards[0].labels, vec!["bug", "ui"]);
    assert_eq!(board.cards[0].updated_at, at(3));
    assert_eq!(
        label_at(&mut board, "id-a", "remove", "bug", at(4)).unwrap().line,
        "Labels on Task A: [ui]"
    );
    assert_eq!(board.cards[0].labels, vec!["ui"]);
    assert_eq!(board.cards[0].updated_at, at(4));
    assert_eq!(label(&mut board, "id-a", "remove", "ui").unwrap().line, "Labels on Task A: []");
}

#[test]
fn label_reports_each_failure() {
    let mut board = sample();
    let before = board.clone();
    assert_eq!(
        label_at(&mut board, "id-a", "remove", "bug", at(1)),
        Err(KukError::LabelNotFound("bug".into()))
    );
    assert_eq!(
        label_at(&mut board, "id-a", "toggle", "bug", at(1)),
        Err(KukError::Other("Invalid label action: toggle. Use 'add' or 'remove'.".into()))
    );
    assert_eq!(
        label_at(&mut board, "zzz", "toggle", "bug", at(1)),
        Err(KukError::CardNotFound("zzz".into()))
    );
    assert_eq!(board, before);
    assert_eq!(KukError::LabelNotFound("bug".into()).message(), "Label not found on card: bug");
}

#[test]
fn assign_sets_the_assignee() {
    let mut board = sample();
    let report = assign_at(&mut board, "id-b", "leslie", at(8)).unwrap();
    assert_eq!(report.line, "Assigned Task B to @leslie");
    assert_eq!(board.cards[1].assignee.as_deref(), Some("leslie"));
    assert_eq!(board.cards[1].updated_at, at(8));
    assert_eq!(board.cards[0].assignee, None);
    assert_eq!(assign(&mut board, "12", "x"), Err(KukError::CardNotFound("12".into())));
    assign(&mut board, "id-b", "max").unwrap();
    assert_eq!(board.cards[1].assignee.as_deref(), Some("max"));
}

#[test]
fn commands_address_the_first_of_equal_identifiers() {
    let mut board = Board::default_board();
    board.cards.push(card("twin", "one", "todo", 4));
    board.cards.push(card("twin", "two", "todo", 1));
    // rank 1 is the second card, whose identifier finds the first
    let report = archive_at(&mut board, "1", at(2)).unwrap();
    assert_eq!(report.title, "one");
    assert!(board.cards[0].archived);
    assert!(!board.cards[1].archived);
    delete(&mut board, "twin").unwrap();
    assert!(board.cards.is_empty());
}

#[test]
fn errors_read_as_they_should() {
    assert_eq!(KukError::NotInitialized.message(), "Not a kuk project. Run `kuk init` first.");
    assert_eq!(KukError::AlreadyInitialized("/r/.kuk".into()).message(), "Already initialized at /r/.kuk");
    assert_eq!(KukError::BoardNotFound("b".into()).message(), "Board not found: b");
    assert_eq!(KukError::CardNotFound("c".into()).message(), "Card not found: c");
    assert_eq!(KukError::ColumnNotFound("c".into()).message(), "Column not found: c");
    assert_eq!(KukError::Io("denied".into()).message(), "IO error: denied");
    assert_eq!(KukError::Json("eof".into()).message(), "JSON error: eof");
    assert_eq!(KukError::Other("plain".into()).message(), "plain");
}

#[test]
fn list_shows_each_column_sorted() {
    let mut board = sample();
    board.columns[1].wip_limit = Some(3);
    board.cards[3].order = 0;
    board.cards[3].labels = vec!["bug".into(), "ui".into()];
    board.cards[3].assignee = Some("leslie".into());
    board.cards[1].archived = true;
    let lines = list(&board);
    assert_eq!(
        lines,
        vec![
            "── TODO (2)──",
            "  1. Task A",
            "  2. Task D [bug, ui] @leslie",
            "",
            "── DOING (1) [1/3]──",
            "  1. Task C",
            "",
            "── DONE (0)──",
            "",
        ]
    );
    let bare = Board { name: "bare".into(), columns: Vec::new(), cards: Vec::new() };
    assert!(list(&bare).is_empty());
}

#[test]
fn list_numbers_past_nine() {
    let mut board = Board {
        name: "b".into(),
        columns: vec![Column { name: "straße".into(), wip_limit: Some(10) }],
        cards: Vec::new(),
    };
    for i in 0..12u32 {
        board.cards.push(card(&format!("id-{i}"), &format!("t{i}"), "straße", 11 - i));
    }
    let lines = list(&board);
    assert_eq!(lines[0], "── STRASSE (12) [12/10]──");
    assert_eq!(lines[1], "  1. t11");
    assert_eq!(lines[10], "  10. t2");
    assert_eq!(lines[12], "  12. t0");
    assert_eq!(lines.len(), 14);
}

#[test]
fn board_list_marks_the_active_board() {
    let names = vec!["backlog".to_string(), "default".to_string(), "sprint-1".to_string()];
    assert_eq!(board(&names, "default"), vec!["  backlog", "* default", "  sprint-1"]);
    assert_eq!(board(&names, "other"), vec!["  backlog", "  default", "  sprint-1"]);
    assert!(board(&Vec::new(), "default").is_empty());
}

#[test]
fn projects_lists_the_index() {
    let mut index = GlobalIndex::default();
    assert_eq!(projects(&index), vec!["No kuk projects found. Run `kuk init` in a repo."]);
    index.add("/home/a", "a");
    index.add("/srv/b", "bee");
    assert_eq!(projects(&index), vec!["  a → /home/a", "  bee → /srv/b"]);
}

#[test]
fn defaults_are_what_they_were() {
    let columns = default_columns();
    let names: Vec<&str> = columns.iter().map(|c| c.name.as_str()).collect();
    assert_eq!(names, vec!["todo", "doing", "done"]);
    assert!(columns.iter().all(|c| c.wip_limit.is_none()));
    assert_eq!(default_column(), "todo");
    assert_eq!(default_board_name(), "default");
    assert_eq!(default_board(), "default");
}

#[test]
fn commands_ask_for_room_only_where_they_place_a_card() {
    let mut board = sample();
    board.cards[2].order = u32::MAX;
    assert!(can_add(&board, "todo"));
    assert!(!can_add(&board, "doing"));
    assert!(can_add(&board, "blocked"));
    assert!(!can_move(&board, "id-a", "doing"));
    assert!(can_move(&board, "nope", "doing"));
    assert!(can_move(&board, "id-a", "blocked"));
    assert!(can_move(&board, "id-a", "done"));
    assert!(can_hoist(&board, "id-c"));
    assert!(!can_demote(&board, "id-c"));
    assert!(can_hoist(&board, "1") && can_demote(&board, "1"));
    assert!(can_hoist(&board, "99") && can_demote(&board, "99"));
    // the commands that have room report as ever
    assert_eq!(
        add_at(&mut board, "New", "blocked", Vec::new(), None, "id-n".into(), at(1)),
        Err(KukError::ColumnNotFound("blocked".into()))
    );
    assert_eq!(
        move_card_at(&mut board, "id-a", "blocked", at(1)),
        Err(KukError::ColumnNotFound("blocked".into()))
    );
    assert_eq!(
        move_card_at(&mut board, "nope", "doing", at(1)),
        Err(KukError::CardNotFound("nope".into()))
    );
    assert_eq!(hoist_at(&mut board, "id-c", at(1)).unwrap().line, "Hoisted: Task C to top of doing");
    assert_eq!(board.cards[2].order, 0);
}

#[test]
fn a_listing_head_stands_between_rules() {
    assert_eq!(kuk::cli::commands::listing_head("TODO", 2, None), "── TODO (2)──");
    assert_eq!(kuk::cli::commands::listing_head("DOING", 1, Some(3)), "── DOING (1) [1/3]──");
    assert_eq!(kuk::cli::commands::listing_head("", 0, Some(0)), "──  (0) [0/0]──");
}
