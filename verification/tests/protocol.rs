use kuk::clock::Timestamp;
use kuk::error::KukError;
use kuk::mcp::{
    board_name, check_args, column_name, count_archived, count_in, failed, http_route,
    has_short_ids, method_not_found, refused, route, tool_add_card, tool_archive_card,
    tool_board_info, tool_delete_card, tool_has_room, tool_list_boards, tool_list_cards,
    tool_move_card, tool_named, McpError, Route, Tool,
    ToolArgs, INTERNAL_ERROR, INVALID_PARAMS, METHOD_NOT_FOUND, PARSE_ERROR,
};
use kuk::model::board::Board;
use kuk::model::card::Card;

fn at(secs: i64) -> Timestamp {
    Timestamp { secs, nanos: 0 }
}

fn args() -> ToolArgs {
    ToolArgs { title: None, column: None, board: None, labels: None, assignee: None, id: None, to: None }
}

fn sample() -> Board {
    let mut board = Board::default_board();
    for (id, title, column, order) in
        [("id-a", "Task A", "todo", 0u32), ("id-b", "Task B", "todo", 1), ("id-c", "Task C", "doing", 0)]
    {
        let mut card = Card::with_id(id.to_string(), title, column, at(0));
        card.order = order;
        board.cards.push(card);
    }
    board
}

fn invalid(message: &str) -> McpError {
    McpError { code: -32602, message: message.to_string() }
}

#[test]
fn codes_are_those_of_the_protocol() {
    assert_eq!((PARSE_ERROR, METHOD_NOT_FOUND, INVALID_PARAMS, INTERNAL_ERROR), (-32700, -32601, -32602, -32603));
}

#[test]
fn methods_are_routed() {
    assert_eq!(route("initialize", false), Route::Initialize);
    assert_eq!(route("notifications/initialized", true), Route::Silent);
    assert_eq!(route("initialized", false), Route::Silent);
    assert_eq!(route("tools/list", false), Route::ToolsList);
    assert_eq!(route("tools/call", true), Route::ToolsCall);
    assert_eq!(route("ping", false), Route::Ping);
    assert_eq!(route("nope", true), Route::Silent);
    assert_eq!(route("nope", false), Route::Unknown);
    assert_eq!(route("PING", false), Route::Unknown);
    assert_eq!(http_route("tools/list"), Route::ToolsList);
    assert_eq!(http_route("tools/call"), Route::ToolsCall);
    assert_eq!(http_route("ping"), Route::Unknown);
    assert_eq!(
        method_not_found("nope"),
        McpError { code: -32601, message: "Method not found: nope".into() }
    );
}

#[test]
fn tools_are_known_by_name() {
    assert_eq!(tool_named("kuk_add_card", false), Ok(Tool::AddCard));
    assert_eq!(tool_named("kuk_list_cards", true), Ok(Tool::ListCards));
    assert_eq!(tool_named("kuk_move_card", false), Ok(Tool::MoveCard));
    assert_eq!(tool_named("kuk_archive_card", false), Ok(Tool::ArchiveCard));
    assert_eq!(tool_named("kuk_delete_card", false), Ok(Tool::DeleteCard));
    assert_eq!(tool_named("kuk_list_boards", true), Ok(Tool::ListBoards));
    assert_eq!(tool_named("kuk_board_info", true), Ok(Tool::BoardInfo));
    assert_eq!(tool_named("kuk_board_info", false), Err(invalid("Unknown tool: kuk_board_info")));
    assert_eq!(tool_named("", true), Err(invalid("Unknown tool: ")));
}

#[test]
fn tools_ask_for_what_they_need() {
    let none = args();
    assert_eq!(check_args(Tool::AddCard, &none), Err(invalid("title is required")));
    assert_eq!(check_args(Tool::MoveCard, &none), Err(invalid("id is required")));
    assert_eq!(check_args(Tool::ArchiveCard, &none), Err(invalid("id is required")));
    assert_eq!(check_args(Tool::DeleteCard, &none), Err(invalid("id is required")));
    assert_eq!(check_args(Tool::ListCards, &none), Ok(()));
    assert_eq!(check_args(Tool::ListBoards, &none), Ok(()));
    let id_only = ToolArgs { id: Some("1".into()), ..args() };
    assert_eq!(check_args(Tool::MoveCard, &id_only), Err(invalid("to is required")));
    assert_eq!(check_args(Tool::DeleteCard, &id_only), Ok(()));
    assert_eq!(board_name(&none), "default");
    assert_eq!(column_name(&none), "todo");
    let named = ToolArgs { board: Some("sprint".into()), column: Some("doing".into()), ..args() };
    assert_eq!(board_name(&named), "sprint");
    assert_eq!(column_name(&named), "doing");
}

#[test]
fn failures_keep_their_text() {
    let e = KukError::BoardNotFound("x".into());
    assert_eq!(failed(&e), McpError { code: -32603, message: "Board not found: x".into() });
    assert_eq!(refused(&e), invalid("Board not found: x"));
}

#[test]
fn move_tool_moves_and_reports() {
    let mut board = sample();
    let call = ToolArgs { id: Some("2".into()), to: Some("done".into()), ..args() };
    assert_eq!(tool_move_card(&mut board, &call, at(5)), Ok("Moved \"Task C\" to done".to_string()));
    assert_eq!(board.cards[2].column, "done");
    assert_eq!(board.cards[2].updated_at, at(5));
    let before = board.clone();
    let bad_column = ToolArgs { id: Some("1".into()), to: Some("x".into()), ..args() };
    assert_eq!(tool_move_card(&mut board, &bad_column, at(5)), Err(invalid("Column not found: x")));
    let bad_card = ToolArgs { id: Some("9".into()), to: Some("done".into()), ..args() };
    assert_eq!(tool_move_card(&mut board, &bad_card, at(5)), Err(invalid("Card not found: 9")));
    assert_eq!(tool_move_card(&mut board, &args(), at(5)), Err(invalid("id is required")));
    let no_to = ToolArgs { id: Some("1".into()), ..args() };
    assert_eq!(tool_move_card(&mut board, &no_to, at(5)), Err(invalid("to is required")));
    assert_eq!(board, before);
}

#[test]
fn archive_and_delete_tools_report() {
    let mut board = sample();
    let call = ToolArgs { id: Some("id-b".into()), ..args() };
    assert_eq!(tool_archive_card(&mut board, &call, at(5)), Ok("Archived \"Task B\"".to_string()));
    assert!(board.cards[1].archived);
    assert_eq!(tool_delete_card(&mut board, &call), Ok("Deleted \"Task B\"".to_string()));
    assert_eq!(board.cards.len(), 2);
    assert_eq!(tool_delete_card(&mut board, &call), Err(invalid("Card not found: id-b")));
    assert_eq!(tool_archive_card(&mut board, &call, at(5)), Err(invalid("Card not found: id-b")));
    assert_eq!(tool_archive_card(&mut board, &args(), at(5)), Err(invalid("id is required")));
    assert_eq!(tool_delete_card(&mut board, &args()), Err(invalid("id is required")));
}

#[test]
fn add_tool_fills_in_the_defaults() {
    let mut board = sample();
    let call = ToolArgs { title: Some("New".into()), ..args() };
    assert_eq!(tool_add_card(&mut board, &call, "id-n".into(), at(5)), Ok(3));
    let card = &board.cards[3];
    assert_eq!((card.title.as_str(), card.column.as_str(), card.order), ("New", "todo", 2));
    assert!(card.labels.is_empty());
    assert_eq!(card.assignee, None);
    let full = ToolArgs {
        title: Some("Full".into()),
        column: Some("done".into()),
        labels: Some(vec!["a".into(), "b".into()]),
        assignee: Some("max".into()),
        ..args()
    };
    assert_eq!(tool_add_card(&mut board, &full, "id-f".into(), at(6)), Ok(4));
    let card = &board.cards[4];
    assert_eq!((card.column.as_str(), card.order), ("done", 0));
    assert_eq!(card.labels, vec!["a", "b"]);
    assert_eq!(card.assignee.as_deref(), Some("max"));
    let before = board.clone();
    assert_eq!(tool_add_card(&mut board, &args(), "x".into(), at(6)), Err(invalid("title is required")));
    let nowhere = ToolArgs { title: Some("t".into()), column: Some("x".into()), ..args() };
    assert_eq!(
        tool_add_card(&mut board, &nowhere, "x".into(), at(6)),
        Err(invalid("Column not found: x"))
    );
    assert_eq!(board, before);
}

#[test]
fn boards_and_their_description() {
    assert_eq!(tool_list_boards(&Vec::new()), "No boards found.");
    assert_eq!(tool_list_boards(&vec!["a".to_string(), "b".to_string()]), "a, b");
    let mut board = sample();
    board.cards[0].archived = true;
    assert_eq!(count_in(&board, "todo"), 1);
    assert_eq!(count_in(&board, "done"), 0);
    assert_eq!(count_archived(&board), 1);
    assert_eq!(
        tool_board_info(&board),
        "Board: default\nColumns: todo, doing, done\nCards: 2 active, 1 archived\n\n  todo: 1\n  doing: 1\n  done: 0"
    );
}

#[test]
fn cards_are_listed_column_by_column() {
    let mut board = Board::default_board();
    for (id, title, column, order) in [
        ("01HXYZ1234567890ABCDEFGHIJ", "Task A", "todo", 5u32),
        ("01HXYZ99", "Task B", "todo", 1),
        ("01ARCHIVED", "Gone", "todo", 0),
        ("x", "Elsewhere", "blocked", 0),
        ("01DOING000000", "Task C", "doing", 0),
    ] {
        let mut card = Card::with_id(id.to_string(), title, column, at(0));
        card.order = order;
        board.cards.push(card);
    }
    board.cards[2].archived = true;
    board.cards[1].labels = vec!["bug".into(), "ui".into()];
    board.cards[1].assignee = Some("max".into());
    assert!(has_short_ids(&board));
    assert_eq!(
        tool_list_cards(&board),
        "## todo (2)\n  1. Task A (01HXYZ12)\n  2. Task B (01HXYZ99) [bug, ui] @max\n\n\
         ## doing (1)\n  1. Task C (01DOING0)\n\n\
         ## done (0)\n  (empty)\n"
    );
    board.cards[4].id = "short".into();
    assert!(!has_short_ids(&board));
    board.cards[4].id = "eight\u{e9}\u{e9}\u{e9}".into();
    assert!(!has_short_ids(&board));
    board.cards[4].archived = true;
    assert!(has_short_ids(&board));
    assert_eq!(tool_list_cards(&Board { name: "b".into(), columns: Vec::new(), cards: Vec::new() }), "");
}

#[test]
fn identifiers_are_cut_at_the_eighth_byte() {
    let mut board = Board::default_board();
    let mut card = Card::with_id("abcdef\u{e9}-rest".to_string(), "Accent", "todo", at(0));
    card.order = 0;
    board.cards.push(card);
    // six letters and a two-byte letter make eight bytes
    assert!(has_short_ids(&board));
    assert_eq!(tool_list_cards(&board), "## todo (1)\n  1. Accent (abcdef\u{e9})\n\n## doing (0)\n  (empty)\n\n## done (0)\n  (empty)\n");
    board.cards[0].id = "abcdefg\u{e9}".into();
    assert!(!has_short_ids(&board));
    board.cards[0].id = "abcdefgh".into();
    assert!(has_short_ids(&board));
}

#[test]
fn tools_ask_for_room_only_where_they_place_a_card() {
    let mut board = sample();
    board.cards[2].order = u32::MAX;
    let add_todo = ToolArgs { title: Some("t".into()), ..args() };
    let add_doing = ToolArgs { title: Some("t".into()), column: Some("doing".into()), ..args() };
    let add_nowhere = ToolArgs { title: Some("t".into()), column: Some("x".into()), ..args() };
    let add_untitled = ToolArgs { column: Some("doing".into()), ..args() };
    assert!(tool_has_room(Tool::AddCard, &board, &add_todo));
    assert!(!tool_has_room(Tool::AddCard, &board, &add_doing));
    assert!(tool_has_room(Tool::AddCard, &board, &add_nowhere));
    assert!(tool_has_room(Tool::AddCard, &board, &add_untitled));
    let to_doing = ToolArgs { id: Some("id-a".into()), to: Some("doing".into()), ..args() };
    let nobody = ToolArgs { id: Some("zz".into()), to: Some("doing".into()), ..args() };
    let half = ToolArgs { to: Some("doing".into()), ..args() };
    assert!(!tool_has_room(Tool::MoveCard, &board, &to_doing));
    assert!(tool_has_room(Tool::MoveCard, &board, &nobody));
    assert!(tool_has_room(Tool::MoveCard, &board, &half));
    assert!(tool_has_room(Tool::ArchiveCard, &board, &to_doing));
    assert!(tool_has_room(Tool::ListCards, &board, &args()));
    assert_eq!(tool_add_card(&mut board, &add_nowhere, "n".into(), at(1)), Err(invalid("Column not found: x")));
    assert_eq!(tool_move_card(&mut board, &nobody, at(1)), Err(invalid("Card not found: zz")));
    assert_eq!(tool_add_card(&mut board, &add_todo, "n".into(), at(1)), Ok(3));
}
