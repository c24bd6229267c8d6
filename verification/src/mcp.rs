//! The tool protocol: which method and which tool a request names, what a
//! tool needs, and what it does to a board. Reading requests and writing
//! responses is the caller's part.

use crate::cli::commands::{
    add_at,
    add_result,
    archive_at,
    archive_result,
    can_add,
    can_move,
    delete,
    delete_result,
    listed_labels,
    move_card_at,
    move_result,
    room_to_add,
    room_to_move,
    ReportView,
};
use crate::clock::Timestamp;
use crate::error::{kuk_message, KukError, KukErrorView};
use crate::model::board::{active_in, has_column, Board, BoardView};
use crate::model::card::{opt_view, Card, CardView};
use crate::text::{concat, decimal, decimal_digits, join, joined, str_eq, views};
use vstd::prelude::*;
use vstd::string::*;
use vstd::utf8::{decode_utf8, encode_utf8, encode_utf8_decode_utf8, is_char_boundary};

verus! {

/// A failure, as the protocol reports it.
#[derive(Debug, Clone, PartialEq)]
pub struct McpError {
    pub code: i32,
    pub message: String,
}

#[verifier::ext_equal]
pub struct McpErrorView {
    pub code: int,
    pub message: Seq<char>,
}

impl View for McpError {
    type V = McpErrorView;

    open spec fn view(&self) -> McpErrorView {
        McpErrorView { code: self.code as int, message: self.message@ }
    }
}

/// The code for a request that could not be read.
pub const PARSE_ERROR: i32 = -32700;

/// The code for a method that there is not.
pub const METHOD_NOT_FOUND: i32 = -32601;

/// The code for arguments that will not do.
pub const INVALID_PARAMS: i32 = -32602;

/// The code for a failure on this side.
pub const INTERNAL_ERROR: i32 = -32603;

/// What a method asks for.
#[derive(Debug, Clone, Copy, PartialEq, Eq, Structural)]
pub enum Route {
    Initialize,
    ToolsList,
    ToolsCall,
    Ping,
    /// Nothing is answered.
    Silent,
    /// There is no such method; an error is answered.
    Unknown,
}

/// What a method asks for on the line protocol. A method that there is not
/// is passed over in silence if the request was a notification.
pub open spec fn route_of(method: Seq<char>, is_notification: bool) -> Route {
    if method == "initialize"@ {
        Route::Initialize
    } else if method == "notifications/initialized"@ || method == "initialized"@ {
        Route::Silent
    } else if method == "tools/list"@ {
        Route::ToolsList
    } else if method == "tools/call"@ {
        Route::ToolsCall
    } else if method == "ping"@ {
        Route::Ping
    } else if is_notification {
        Route::Silent
    } else {
        Route::Unknown
    }
}

/// What a method asks for on the line protocol.
pub fn route(method: &str, is_notification: bool) -> (r: Route)
    ensures
        r == route_of(method@, is_notification),
{
    if str_eq(method, "initialize") {
        Route::Initialize
    } else if str_eq(method, "notifications/initialized") || str_eq(method, "initialized") {
        Route::Silent
    } else if str_eq(method, "tools/list") {
        Route::ToolsList
    } else if str_eq(method, "tools/call") {
        Route::ToolsCall
    } else if str_eq(method, "ping") {
        Route::Ping
    } else if is_notification {
        Route::Silent
    } else {
        Route::Unknown
    }
}

/// What a method asks for over HTTP: the tools can be listed and called,
/// and there is no other method.
pub fn http_route(method: &str) -> (r: Route)
    ensures
        r == if method@ == "tools/list"@ {
            Route::ToolsList
        } else if method@ == "tools/call"@ {
            Route::ToolsCall
        } else {
            Route::Unknown
        },
{
    if str_eq(method, "tools/list") {
        Route::ToolsList
    } else if str_eq(method, "tools/call") {
        Route::ToolsCall
    } else {
        Route::Unknown
    }
}

/// The error for a method that there is not, on the line protocol.
pub fn method_not_found(method: &str) -> (e: McpError)
    ensures
        e@ == (McpErrorView { code: -32601, message: "Method not found: "@ + method@ }),
{
    McpError { code: METHOD_NOT_FOUND, message: concat("Method not found: ", method) }
}

/// The tools.
#[derive(Debug, Clone, Copy, PartialEq, Eq, Structural)]
pub enum Tool {
    AddCard,
    ListCards,
    MoveCard,
    ArchiveCard,
    DeleteCard,
    ListBoards,
    BoardInfo,
}

/// The tool of the given name; listing the boards and describing one are
/// tools of the line protocol only.
pub open spec fn tool_of(name: Seq<char>, line_protocol: bool) -> Option<Tool> {
    if name == "kuk_add_card"@ {
        Some(Tool::AddCard)
    } else if name == "kuk_list_cards"@ {
        Some(Tool::ListCards)
    } else if name == "kuk_move_card"@ {
        Some(Tool::MoveCard)
    } else if name == "kuk_archive_card"@ {
        Some(Tool::ArchiveCard)
    } else if name == "kuk_delete_card"@ {
        Some(Tool::DeleteCard)
    } else if line_protocol && name == "kuk_list_boards"@ {
        Some(Tool::ListBoards)
    } else if line_protocol && name == "kuk_board_info"@ {
        Some(Tool::BoardInfo)
    } else {
        None
    }
}

/// The error for bad arguments with the given text.
pub open spec fn invalid(message: Seq<char>) -> McpErrorView {
    McpErrorView { code: -32602, message }
}

/// The tool of the given name, or that there is none.
pub fn tool_named(name: &str, line_protocol: bool) -> (r: Result<Tool, McpError>)
    ensures
        match r {
            Ok(tool) => tool_of(name@, line_protocol) == Some(tool),
            Err(e) => tool_of(name@, line_protocol) is None && e@ == invalid(
                "Unknown tool: "@ + name@,
            ),
        },
{
    if str_eq(name, "kuk_add_card") {
        Ok(Tool::AddCard)
    } else if str_eq(name, "kuk_list_cards") {
        Ok(Tool::ListCards)
    } else if str_eq(name, "kuk_move_card") {
        Ok(Tool::MoveCard)
    } else if str_eq(name, "kuk_archive_card") {
        Ok(Tool::ArchiveCard)
    } else if str_eq(name, "kuk_delete_card") {
        Ok(Tool::DeleteCard)
    } else if line_protocol && str_eq(name, "kuk_list_boards") {
        Ok(Tool::ListBoards)
    } else if line_protocol && str_eq(name, "kuk_board_info") {
        Ok(Tool::BoardInfo)
    } else {
        Err(McpError { code: INVALID_PARAMS, message: concat("Unknown tool: ", name) })
    }
}

/// The arguments of a call, as far as they are texts.
#[derive(Debug, Clone)]
pub struct ToolArgs {
    pub title: Option<String>,
    pub column: Option<String>,
    pub board: Option<String>,
    pub labels: Option<Vec<String>>,
    pub assignee: Option<String>,
    pub id: Option<String>,
    pub to: Option<String>,
}

/// The argument that a tool cannot do without and that is missing, if any:
/// a new card needs a `title`, a move an `id` and a `to`, archiving and
/// deleting an `id`.
pub open spec fn missing(tool: Tool, args: ToolArgs) -> Option<Seq<char>> {
    match tool {
        Tool::AddCard => if args.title is None {
            Some("title"@)
        } else {
            None
        },
        Tool::MoveCard => if args.id is None {
            Some("id"@)
        } else if args.to is None {
            Some("to"@)
        } else {
            None
        },
        Tool::ArchiveCard | Tool::DeleteCard => if args.id is None {
            Some("id"@)
        } else {
            None
        },
        _ => None,
    }
}

fn requires_argument(what: &str) -> (e: McpError)
    ensures
        e@ == invalid(what@ + " is required"@),
{
    McpError { code: INVALID_PARAMS, message: concat(what, " is required") }
}

/// Checks that the tool has the arguments it cannot do without.
pub fn check_args(tool: Tool, args: &ToolArgs) -> (r: Result<(), McpError>)
    ensures
        match r {
            Ok(_) => missing(tool, *args) is None,
            Err(e) => missing(tool, *args) matches Some(what) && e@ == invalid(
                what + " is required"@,
            ),
        },
{
    match tool {
        Tool::AddCard => if args.title.is_none() {
            return Err(requires_argument("title"));
        },
        Tool::MoveCard => if args.id.is_none() {
            return Err(requires_argument("id"));
        } else if args.to.is_none() {
            return Err(requires_argument("to"));
        },
        Tool::ArchiveCard | Tool::DeleteCard => if args.id.is_none() {
            return Err(requires_argument("id"));
        },
        _ => {},
    }
    Ok(())
}

/// The board a call is about: the one it names, else `default`.
pub fn board_name(args: &ToolArgs) -> (name: String)
    ensures
        name@ == match args.board {
            Some(b) => b@,
            None => "default"@,
        },
{
    match &args.board {
        Some(b) => b.clone(),
        None => "default".to_owned(),
    }
}

/// The column a new card goes to: the one the call names, else `todo`.
pub fn column_name(args: &ToolArgs) -> (name: String)
    ensures
        name@ == match args.column {
            Some(c) => c@,
            None => "todo"@,
        },
{
    match &args.column {
        Some(c) => c.clone(),
        None => "todo".to_owned(),
    }
}

/// A failure of a board operation as the protocol reports it: as bad
/// arguments, with the failure's own text.
pub fn refused(e: &KukError) -> (r: McpError)
    ensures
        r@ == invalid(kuk_message(e@)),
{
    McpError { code: INVALID_PARAMS, message: e.message() }
}

/// A failure of the gateway as the protocol reports it: as a failure on
/// this side, with the failure's own text.
pub fn failed(e: &KukError) -> (r: McpError)
    ensures
        r@ == (McpErrorView { code: -32603, message: kuk_message(e@) }),
{
    McpError { code: INTERNAL_ERROR, message: e.message() }
}

/// The column that a call names for a new card, `todo` if it names none.
pub open spec fn column_of(args: ToolArgs) -> Seq<char> {
    match args.column {
        Some(c) => c@,
        None => "todo"@,
    }
}

/// The tool can place the card it adds or moves: adding needs room in the
/// column of the new card, moving in the column the card goes to, and
/// neither needs any where the call fails before a card is placed. The
/// other tools need none.
pub open spec fn tool_room(tool: Tool, b: BoardView, args: ToolArgs) -> bool {
    match tool {
        Tool::AddCard => args.title is Some ==> room_to_add(b, column_of(args)),
        Tool::MoveCard => match (args.id, args.to) {
            (Some(id), Some(to)) => room_to_move(b, id@, to@),
            _ => true,
        },
        _ => true,
    }
}

/// Whether the tool can place the card it adds or moves.
pub fn tool_has_room(tool: Tool, board: &Board, args: &ToolArgs) -> (r: bool)
    ensures
        r == tool_room(tool, board@, *args),
{
    match tool {
        Tool::AddCard => match &args.title {
            Some(_) => can_add(board, column_name(args).as_str()),
            None => true,
        },
        Tool::MoveCard => match (&args.id, &args.to) {
            (Some(id), Some(to)) => can_move(board, id.as_str(), to.as_str()),
            _ => true,
        },
        _ => true,
    }
}

/// What a tool that changes a card answers: the board after it, and the
/// text, or the error.
pub open spec fn answer(
    done: (BoardView, Result<ReportView, KukErrorView>),
    verb: Seq<char>,
    tail: Seq<char>,
) -> (BoardView, Result<Seq<char>, McpErrorView>) {
    match done.1 {
        Ok(report) => (done.0, Ok(verb + " \""@ + report.title + "\""@ + tail)),
        Err(e) => (done.0, Err(invalid(kuk_message(e)))),
    }
}

pub open spec fn text_view(r: Result<String, McpError>) -> Result<Seq<char>, McpErrorView> {
    match r {
        Ok(text) => Ok(text@),
        Err(e) => Err(e@),
    }
}

fn quoted(verb: &str, title: &str, tail: &str) -> (r: String)
    ensures
        r@ == verb@ + " \""@ + title@ + "\""@ + tail@,
{
    let mut text = concat(verb, " \"");
    text.append(title);
    text.append("\"");
    text.append(tail);
    text
}

/// The tool that moves a card, at time `at`.
pub fn tool_move_card(board: &mut Board, args: &ToolArgs, at: Timestamp) -> (r: Result<
    String,
    McpError,
>)
    requires
        tool_room(Tool::MoveCard, old(board)@, *args),
    ensures
        match (args.id, args.to) {
            (Some(id), Some(to)) => (final(board)@, text_view(r)) == answer(
                move_result(old(board)@, id@, to@, at),
                "Moved"@,
                " to "@ + to@,
            ),
            _ => final(board)@ == old(board)@ && text_view(r) == Err::<Seq<char>, McpErrorView>(
                invalid(missing(Tool::MoveCard, *args)->0 + " is required"@),
            ),
        },
{
    if let Err(e) = check_args(Tool::MoveCard, args) {
        return Err(e);
    }
    let id = match &args.id {
        Some(id) => id,
        None => {
            return Err(requires_argument("id"));
        },
    };
    let to = match &args.to {
        Some(to) => to,
        None => {
            return Err(requires_argument("to"));
        },
    };
    match move_card_at(board, id.as_str(), to.as_str(), at) {
        Ok(report) => Ok(quoted("Moved", report.title.as_str(), concat(" to ", to.as_str()).as_str())),
        Err(e) => Err(refused(&e)),
    }
}

/// The tool that archives a card, at time `at`.
pub fn tool_archive_card(board: &mut Board, args: &ToolArgs, at: Timestamp) -> (r: Result<
    String,
    McpError,
>)
    ensures
        match args.id {
            Some(id) => (final(board)@, text_view(r)) == answer(
                archive_result(old(board)@, id@, at),
                "Archived"@,
                ""@,
            ),
            None => final(board)@ == old(board)@ && text_view(r) == Err::<Seq<char>, McpErrorView>(
                invalid("id"@ + " is required"@),
            ),
        },
{
    let id = match &args.id {
        Some(id) => id,
        None => {
            return Err(requires_argument("id"));
        },
    };
    match archive_at(board, id.as_str(), at) {
        Ok(report) => {
            Ok(quoted("Archived", report.title.as_str(), ""))
        },
        Err(e) => Err(refused(&e)),
    }
}

/// The tool that deletes a card.
pub fn tool_delete_card(board: &mut Board, args: &ToolArgs) -> (r: Result<String, McpError>)
    ensures
        match args.id {
            Some(id) => (final(board)@, text_view(r)) == answer(
                delete_result(old(board)@, id@),
                "Deleted"@,
                ""@,
            ),
            None => final(board)@ == old(board)@ && text_view(r) == Err::<Seq<char>, McpErrorView>(
                invalid("id"@ + " is required"@),
            ),
        },
{
    let id = match &args.id {
        Some(id) => id,
        None => {
            return Err(requires_argument("id"));
        },
    };
    match delete(board, id.as_str()) {
        Ok(report) => {
            Ok(quoted("Deleted", report.title.as_str(), ""))
        },
        Err(e) => Err(refused(&e)),
    }
}

/// What the tool that adds a card comes to: the card needs a title, and
/// the column, `todo` unless one is named, must be on the board.
pub open spec fn add_answer(b: BoardView, args: ToolArgs, id: Seq<char>, at: Timestamp) -> (
    BoardView,
    Result<int, McpErrorView>,
) {
    match args.title {
        None => (b, Err(invalid("title"@ + " is required"@))),
        Some(title) => {
            let column = match args.column {
                Some(c) => c@,
                None => "todo"@,
            };
            let labels = match args.labels {
                Some(l) => views(l@),
                None => Seq::empty(),
            };
            let done = add_result(b, title@, column, labels, opt_view(args.assignee), id, at);
            match done.1 {
                Ok(_) => (done.0, Ok(b.cards.len() as int)),
                Err(e) => (b, Err(invalid(kuk_message(e)))),
            }
        },
    }
}

/// The tool that adds a card with the given identifier, created at `at`.
/// Returns the position of the new card.
pub fn tool_add_card(board: &mut Board, args: &ToolArgs, id: String, at: Timestamp) -> (r: Result<
    usize,
    McpError,
>)
    requires
        tool_room(Tool::AddCard, old(board)@, *args),
    ensures
        final(board)@ == add_answer(old(board)@, *args, id@, at).0,
        match r {
            Ok(p) => add_answer(old(board)@, *args, id@, at).1 == Ok::<int, McpErrorView>(p as int),
            Err(e) => add_answer(old(board)@, *args, id@, at).1 == Err::<int, McpErrorView>(e@),
        },
{
    let title = match &args.title {
        Some(t) => t,
        None => {
            return Err(requires_argument("title"));
        },
    };
    let column = column_name(args);
    let labels = match &args.labels {
        Some(l) => l.clone(),
        None => Vec::new(),
    };
    assert(views(labels@) =~= match args.labels {
        Some(l) => views(l@),
        None => Seq::empty(),
    });
    let place = board.cards.len();
    match add_at(board, title.as_str(), column.as_str(), labels, args.assignee.clone(), id, at) {
        Ok(_) => Ok(place),
        Err(e) => Err(refused(&e)),
    }
}

/// What the tool that lists the boards says.
pub fn tool_list_boards(boards: &Vec<String>) -> (text: String)
    ensures
        text@ == if boards.len() == 0 {
            "No boards found."@
        } else {
            joined(views(boards@), ", "@)
        },
{
    if boards.len() == 0 {
        "No boards found.".to_owned()
    } else {
        join(boards, ", ")
    }
}

/// The cards that count for `column`, in the sequence of the board.
pub open spec fn cards_in(cards: Seq<CardView>, column: Seq<char>) -> Seq<CardView> {
    cards.filter(|c: CardView| active_in(c, column))
}

/// The cards that are archived.
pub open spec fn archived_cards(cards: Seq<CardView>) -> Seq<CardView> {
    cards.filter(|c: CardView| c.archived)
}

/// The number of cards that count for `column`.
pub fn count_in(board: &Board, column: &str) -> (n: usize)
    ensures
        n == cards_in(board@.cards, column@).len(),
{
    let ghost keep = |c: CardView| active_in(c, column@);
    let mut n: usize = 0;
    let mut i: usize = 0;
    proof {
        reveal(Seq::filter);
        assert(board@.cards.take(0).filter(keep) =~= Seq::<CardView>::empty());
    }
    while i < board.cards.len()
        invariant
            i <= board.cards.len(),
            n <= i,
            keep == (|c: CardView| active_in(c, column@)),
            n == board@.cards.take(i as int).filter(keep).len(),
        decreases board.cards.len() - i,
    {
        let card = &board.cards[i];
        proof {
            let all = board@.cards;
            assert(all.take(i + 1) =~= all.take(i as int).push(card@));
            all.take(i as int).lemma_filter_push(card@, keep);
        }
        if str_eq(card.column.as_str(), column) && !card.archived {
            n += 1;
        }
        i += 1;
    }
    assert(board@.cards.take(i as int) =~= board@.cards);
    n
}

/// The number of cards that are archived.
pub fn count_archived(board: &Board) -> (n: usize)
    ensures
        n == archived_cards(board@.cards).len(),
{
    let ghost keep = |c: CardView| c.archived;
    let mut n: usize = 0;
    let mut i: usize = 0;
    proof {
        reveal(Seq::filter);
        assert(board@.cards.take(0).filter(keep) =~= Seq::<CardView>::empty());
    }
    while i < board.cards.len()
        invariant
            i <= board.cards.len(),
            n <= i,
            keep == (|c: CardView| c.archived),
            n == board@.cards.take(i as int).filter(keep).len(),
        decreases board.cards.len() - i,
    {
        let card = &board.cards[i];
        proof {
            let all = board@.cards;
            assert(all.take(i + 1) =~= all.take(i as int).push(card@));
            all.take(i as int).lemma_filter_push(card@, keep);
        }
        if card.archived {
            n += 1;
        }
        i += 1;
    }
    assert(board@.cards.take(i as int) =~= board@.cards);
    n
}

/// The line of a column in the description of a board.
pub open spec fn info_line(b: BoardView, col: int) -> Seq<char> {
    "  "@ + b.columns[col].name + ": "@ + decimal_digits(
        cards_in(b.cards, b.columns[col].name).len(),
    )
}

/// The lines of the first `n` columns in the description of a board.
pub open spec fn info_tail(b: BoardView, n: int) -> Seq<Seq<char>> {
    Seq::new(n as nat, |col: int| info_line(b, col))
}

/// The description of a board, line by line: its name, its columns, how
/// many cards are archived and how many are not, an empty line, and for
/// each column how many cards count for it.
pub open spec fn info_lines(b: BoardView) -> Seq<Seq<char>> {
    seq![
        "Board: "@ + b.name,
        "Columns: "@ + joined(b.columns.map_values(|c: crate::model::board::ColumnView| c.name), ", "@),
        "Cards: "@ + decimal_digits((b.cards.len() - archived_cards(b.cards).len()) as nat)
            + " active, "@ + decimal_digits(archived_cards(b.cards).len()) + " archived"@,
        Seq::empty(),
    ] + info_tail(b, b.columns.len() as int)
}

/// What the tool that describes a board says.
pub fn tool_board_info(board: &Board) -> (text: String)
    ensures
        text@ == joined(info_lines(board@), "\n"@),
{
    let mut lines: Vec<String> = Vec::new();
    lines.push(concat("Board: ", board.name.as_str()));
    let mut names: Vec<String> = Vec::new();
    let mut i: usize = 0;
    while i < board.columns.len()
        invariant
            i <= board.columns.len(),
            names.len() == i,
            forall|k: int| 0 <= k < i ==> (#[trigger] names[k])@ == board@.columns[k].name,
        decreases board.columns.len() - i,
    {
        names.push(board.columns[i].name.clone());
        i += 1;
    }
    assert(views(names@) =~= board@.columns.map_values(
        |c: crate::model::board::ColumnView| c.name,
    ));
    lines.push(concat("Columns: ", join(&names, ", ").as_str()));
    let gone = count_archived(board);
    proof {
        board@.cards.lemma_filter_len(|c: CardView| c.archived);
    }
    let mut counts = concat("Cards: ", decimal(board.cards.len() - gone).as_str());
    counts.append(" active, ");
    counts.append(decimal(gone).as_str());
    counts.append(" archived");
    lines.push(counts);
    lines.push(String::new());
    let ghost head = views(lines@);
    let mut col: usize = 0;
    assert(views(lines@) =~= head + info_tail(board@, 0));
    while col < board.columns.len()
        invariant
            col <= board.columns.len(),
            views(lines@) == head + info_tail(board@, col as int),
        decreases board.columns.len() - col,
    {
        let name = board.columns[col].name.as_str();
        assert(name@ == board@.columns[col as int].name);
        let mut line = concat("  ", name);
        line.append(": ");
        line.append(decimal(count_in(board, name)).as_str());
        assert(line@ =~= info_line(board@, col as int));
        let ghost before = views(lines@);
        lines.push(line);
        proof {
            assert(views(lines@) =~= before.push(line@));
            assert(info_tail(board@, col + 1) =~= info_tail(board@, col as int).push(line@));
            assert(views(lines@) =~= head + info_tail(board@, col + 1));
        }
        col += 1;
    }
    assert(views(lines@) =~= info_lines(board@));
    join(&lines, "\n")
}

/// The identifier can be shown by its beginning: written in UTF-8 it has
/// eight bytes or more, and the first eight of them are whole characters.
pub open spec fn can_shorten(id: Seq<char>) -> bool {
    encode_utf8(id).len() >= 8 && is_char_boundary(encode_utf8(id), 8)
}

/// The beginning of an identifier: the characters that its first eight
/// bytes in UTF-8 make up. For an identifier in ASCII these are its first
/// eight characters.
pub open spec fn short_id(id: Seq<char>) -> Seq<char> {
    decode_utf8(encode_utf8(id).subrange(0, 8))
}

/// Every card that a column of the board lists has an identifier that can
/// be shown by its beginning.
pub open spec fn ids_can_shorten(b: BoardView) -> bool {
    forall|i: int|
        0 <= i < b.cards.len() && !(#[trigger] b.cards[i]).archived && has_column(
            b.columns,
            b.cards[i].column,
        ) ==> can_shorten(b.cards[i].id)
}

/// Whether every card that a column of the board lists has an identifier
/// that can be shown by its beginning.
pub fn has_short_ids(board: &Board) -> (r: bool)
    ensures
        r == ids_can_shorten(board@),
{
    let mut i: usize = 0;
    while i < board.cards.len()
        invariant
            i <= board.cards.len(),
            forall|j: int|
                0 <= j < i && !(#[trigger] board@.cards[j]).archived && has_column(
                    board@.columns,
                    board@.cards[j].column,
                ) ==> can_shorten(board@.cards[j].id),
        decreases board.cards.len() - i,
    {
        let card = &board.cards[i];
        assert(board@.cards[i as int] == card@);
        if !card.archived && board.has_column(card.column.as_str()) {
            if card.id.as_str().as_bytes().len() < 8 || !card.id.as_str().is_char_boundary(8) {
                return false;
            }
        }
        i += 1;
    }
    true
}

/// The line of a card in the list of a column: its rank in the column, its
/// title, the beginning of its identifier, its labels and its assignee.
pub open spec fn card_row(rank: nat, card: CardView) -> Seq<char> {
    "  "@ + decimal_digits(rank) + ". "@ + card.title + " ("@ + short_id(card.id) + ")"@
        + listed_labels(card.labels) + match card.assignee {
        Some(a) => " @"@ + a,
        None => Seq::empty(),
    }
}

/// The lines of the given cards, ranked from one.
pub open spec fn card_rows(shown: Seq<CardView>) -> Seq<Seq<char>> {
    Seq::new(shown.len(), |j: int| card_row((j + 1) as nat, shown[j]))
}

/// The lines of column `col` in the list of cards: its name with the number
/// of its cards, the cards in the sequence of the board, a note where there
/// are none, and an empty line.
pub open spec fn column_block(b: BoardView, col: int) -> Seq<Seq<char>> {
    let shown = cards_in(b.cards, b.columns[col].name);
    seq!["## "@ + b.columns[col].name + " ("@ + decimal_digits(shown.len()) + ")"@] + card_rows(
        shown,
    ) + if shown.len() == 0 {
        seq!["  (empty)"@]
    } else {
        Seq::empty()
    } + seq![Seq::empty()]
}

/// The lines of the first `n` columns in the list of cards.
pub open spec fn card_list(b: BoardView, n: int) -> Seq<Seq<char>>
    decreases n,
{
    if n <= 0 {
        Seq::empty()
    } else {
        card_list(b, n - 1) + column_block(b, n - 1)
    }
}

fn list_row(rank: usize, card: &Card) -> (line: String)
    requires
        can_shorten(card@.id),
    ensures
        line@ == card_row(rank as nat, card@),
{
    let mut line = concat("  ", decimal(rank).as_str());
    line.append(". ");
    line.append(card.title.as_str());
    line.append(" (");
    let (head, _) = card.id.as_str().split_at(8);
    proof {
        encode_utf8_decode_utf8(head@);
    }
    line.append(head);
    line.append(")");
    if card.labels.len() > 0 {
        line.append(" [");
        line.append(join(&card.labels, ", ").as_str());
        line.append("]");
    }
    if let Some(a) = &card.assignee {
        line.append(" @");
        line.append(a.as_str());
    }
    assert(line@ =~= card_row(rank as nat, card@));
    line
}

/// What the tool that lists the cards says: column by column the cards
/// that are not archived, in the sequence of the board.
pub fn tool_list_cards(board: &Board) -> (text: String)
    requires
        ids_can_shorten(board@),
    ensures
        text@ == joined(card_list(board@, board@.columns.len() as int), "\n"@),
{
    let mut lines: Vec<String> = Vec::new();
    let mut col: usize = 0;
    assert(views(lines@) =~= card_list(board@, 0));
    while col < board.columns.len()
        invariant
            col <= board.columns.len(),
            ids_can_shorten(board@),
            views(lines@) == card_list(board@, col as int),
        decreases board.columns.len() - col,
    {
        let name = board.columns[col].name.as_str();
        assert(board@.columns[col as int].name == name@);
        let ghost keep = |c: CardView| active_in(c, name@);
        let ghost before = views(lines@);
        let total = count_in(board, name);
        let mut head = concat("## ", name);
        head.append(" (");
        head.append(decimal(total).as_str());
        head.append(")");
        let ghost head_line = head@;
        lines.push(head);
        let mut rank: usize = 0;
        let mut i: usize = 0;
        proof {
            reveal(Seq::filter);
            assert(board@.cards.take(0).filter(keep) =~= Seq::<CardView>::empty());
            assert(views(lines@) =~= before + seq![head_line] + card_rows(
                board@.cards.take(0).filter(keep),
            ));
        }
        while i < board.cards.len()
            invariant
                i <= board.cards.len(),
                rank <= i,
                col < board.columns.len(),
                ids_can_shorten(board@),
                name@ == board@.columns[col as int].name,
                keep == (|c: CardView| active_in(c, name@)),
                rank == board@.cards.take(i as int).filter(keep).len(),
                views(lines@) == before + seq![head_line] + card_rows(
                    board@.cards.take(i as int).filter(keep),
                ),
            decreases board.cards.len() - i,
        {
            let card = &board.cards[i];
            let ghost seen = board@.cards.take(i as int).filter(keep);
            proof {
                let all = board@.cards;
                assert(all[i as int] == card@);
                assert(all.take(i + 1) =~= all.take(i as int).push(card@));
                all.take(i as int).lemma_filter_push(card@, keep);
            }
            if str_eq(card.column.as_str(), name) && !card.archived {
                assert(has_column(board@.columns, card@.column));
                let ghost mid = views(lines@);
                let line = list_row(rank + 1, card);
                lines.push(line);
                rank += 1;
                proof {
                    assert(views(lines@) =~= mid.push(line@));
                    assert(card_rows(seen.push(card@)) =~= card_rows(seen).push(line@));
                }
            }
            i += 1;
        }
        assert(board@.cards.take(i as int) =~= board@.cards);
        let ghost shown = cards_in(board@.cards, name@);
        if rank == 0 {
            let ghost mid = views(lines@);
            lines.push("  (empty)".to_owned());
            assert(views(lines@) =~= mid.push("  (empty)"@));
        }
        let ghost mid = views(lines@);
        lines.push(String::new());
        proof {
            assert(views(lines@) =~= mid.push(Seq::<char>::empty()));
            assert(views(lines@) =~= before + column_block(board@, col as int));
        }
        col += 1;
    }
    join(&lines, "\n")
}

} // verus!
