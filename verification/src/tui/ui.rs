//! The layout of the screen: what the title bar, the columns, the status bar
//! and the overlays say for a given state of the engine. The layout holds
//! texts and flags only; painting it is left to the caller.

use crate::listing::{as_ints, count_in_scope, whole_board};
use crate::model::board::{Board, ColumnView};
use crate::model::card::{Card, CardView};
use crate::text::{concat, decimal, decimal_digits, join, joined, str_eq, to_uppercase, uppercase};
use crate::tui::app::{visible, App, AppView, Mode};
use vstd::prelude::*;
use vstd::string::*;

verus! {

/// One card in a column.
#[derive(Debug, Clone, PartialEq)]
pub struct ItemLayout {
    pub text: String,
    /// The selection is on this card.
    pub selected: bool,
}

/// One column with the cards it shows.
#[derive(Debug, Clone, PartialEq)]
pub struct ColumnLayout {
    pub header: String,
    /// The selection is in this column.
    pub selected: bool,
    pub items: Vec<ItemLayout>,
}

/// One board in the picker.
#[derive(Debug, Clone, PartialEq)]
pub struct PickerItem {
    pub text: String,
    /// This is the board the engine holds.
    pub active: bool,
    /// The picker's selection is on this board.
    pub selected: bool,
}

/// The picker overlay.
#[derive(Debug, Clone, PartialEq)]
pub struct PickerLayout {
    pub width: u16,
    pub height: u16,
    pub items: Vec<PickerItem>,
}

/// The whole screen.
#[derive(Debug, Clone, PartialEq)]
pub struct Screen {
    pub title: String,
    pub columns: Vec<ColumnLayout>,
    pub status: String,
    /// The help overlay is shown.
    pub help: bool,
    /// The picker overlay, while it is shown.
    pub picker: Option<PickerLayout>,
}

/// A rectangle of character cells.
#[derive(Debug, Clone, Copy, PartialEq, Eq, Structural)]
pub struct Area {
    pub x: u16,
    pub y: u16,
    pub width: u16,
    pub height: u16,
}

#[verifier::ext_equal]
pub struct ItemView {
    pub text: Seq<char>,
    pub selected: bool,
}

#[verifier::ext_equal]
pub struct ColumnLayoutView {
    pub header: Seq<char>,
    pub selected: bool,
    pub items: Seq<ItemView>,
}

#[verifier::ext_equal]
pub struct PickerItemView {
    pub text: Seq<char>,
    pub active: bool,
    pub selected: bool,
}

#[verifier::ext_equal]
pub struct PickerView {
    pub width: u16,
    pub height: u16,
    pub items: Seq<PickerItemView>,
}

#[verifier::ext_equal]
pub struct ScreenView {
    pub title: Seq<char>,
    pub columns: Seq<ColumnLayoutView>,
    pub status: Seq<char>,
    pub help: bool,
    pub picker: Option<PickerView>,
}

impl View for ItemLayout {
    type V = ItemView;

    open spec fn view(&self) -> ItemView {
        ItemView { text: self.text@, selected: self.selected }
    }
}

impl View for ColumnLayout {
    type V = ColumnLayoutView;

    open spec fn view(&self) -> ColumnLayoutView {
        ColumnLayoutView {
            header: self.header@,
            selected: self.selected,
            items: self.items@.map_values(|i: ItemLayout| i@),
        }
    }
}

impl View for PickerItem {
    type V = PickerItemView;

    open spec fn view(&self) -> PickerItemView {
        PickerItemView { text: self.text@, active: self.active, selected: self.selected }
    }
}

impl View for PickerLayout {
    type V = PickerView;

    open spec fn view(&self) -> PickerView {
        PickerView {
            width: self.width,
            height: self.height,
            items: self.items@.map_values(|i: PickerItem| i@),
        }
    }
}

impl View for Screen {
    type V = ScreenView;

    open spec fn view(&self) -> ScreenView {
        ScreenView {
            title: self.title@,
            columns: self.columns@.map_values(|c: ColumnLayout| c@),
            status: self.status@,
            help: self.help,
            picker: match self.picker {
                Some(p) => Some(p@),
                None => None,
            },
        }
    }
}

// ---------------------------------------------------------------------------
// What the screen says
// ---------------------------------------------------------------------------

/// The title bar: the board's name and how many cards are not archived.
pub open spec fn title_text(a: AppView) -> Seq<char> {
    " kuk  │  "@ + a.board.name + "  │  "@ + decimal_digits(
        count_in_scope(a.board.cards, whole_board()),
    ) + " cards"@
}

/// The labels of a card, in brackets, or nothing where it has none.
pub open spec fn labels_text(labels: Seq<Seq<char>>) -> Seq<char> {
    if labels.len() == 0 {
        Seq::empty()
    } else {
        " ["@ + joined(labels, ","@) + "]"@
    }
}

/// The assignee of a card after an `@`, or nothing where it has none.
pub open spec fn assignee_text(assignee: Option<Seq<char>>) -> Seq<char> {
    match assignee {
        Some(a) => " @"@ + a,
        None => Seq::empty(),
    }
}

/// The line that shows a card: its title, labels and assignee.
pub open spec fn item_text(card: CardView) -> Seq<char> {
    card.title + labels_text(card.labels) + assignee_text(card.assignee)
}

/// The count against the limit, or nothing for a column without limit.
pub open spec fn wip_text(limit: Option<u32>, count: nat) -> Seq<char> {
    match limit {
        Some(l) => " ["@ + decimal_digits(count) + "/"@ + decimal_digits(l as nat) + "]"@,
        None => Seq::empty(),
    }
}

/// The head of a column: its name in capitals, the number of cards it
/// shows, and that number against the limit if it has one.
pub open spec fn header_text(column: ColumnView, count: nat) -> Seq<char> {
    header_of(uppercase(column.name), count, column.wip_limit)
}

/// The head of a column whose name in capitals is `upper`.
pub open spec fn header_of(upper: Seq<char>, count: nat, limit: Option<u32>) -> Seq<char> {
    upper + " ("@ + decimal_digits(count) + ")"@ + wip_text(limit, count)
}

/// The layout of column `col`.
pub open spec fn column_layout(a: AppView, col: int) -> ColumnLayoutView {
    let shown = visible(a, col);
    ColumnLayoutView {
        header: header_text(a.board.columns[col], shown.len()),
        selected: col == a.selected_col,
        items: Seq::new(
            shown.len(),
            |j: int|
                ItemView {
                    text: item_text(a.board.cards[shown[j]]),
                    selected: col == a.selected_col && j == a.selected_row,
                },
        ),
    }
}

/// The name of a mode, as the status bar shows it.
pub open spec fn mode_text(mode: Mode) -> Seq<char> {
    match mode {
        Mode::Normal => "NORMAL"@,
        Mode::Insert => "INSERT"@,
        Mode::Search => "SEARCH"@,
        Mode::Help => "HELP"@,
        Mode::Confirm => "CONFIRM"@,
        Mode::BoardPicker => "BOARDS"@,
    }
}

/// The status bar: the mode, then the text being typed, the message, or a
/// hint.
pub open spec fn status_text(a: AppView) -> Seq<char> {
    let head = " "@ + mode_text(a.mode) + " │ "@;
    match a.mode {
        Mode::Insert => head + a.input_buf,
        Mode::Search => head + "/"@ + a.search_buf,
        _ => match a.message {
            Some(m) => head + m,
            None => head + "? for help"@,
        },
    }
}

/// The height of the picker: four more than there are boards, twenty at
/// most.
pub open spec fn picker_height(boards: nat) -> u16 {
    if boards >= 16 {
        20
    } else {
        (boards + 4) as u16
    }
}

/// The picker overlay: each board, the active one marked with a star.
pub open spec fn picker_layout(a: AppView) -> PickerView {
    PickerView {
        width: 40,
        height: picker_height(a.board_list.len()),
        items: Seq::new(
            a.board_list.len(),
            |i: int|
                PickerItemView {
                    text: if a.board_list[i] == a.board.name {
                        "* "@
                    } else {
                        "  "@
                    } + a.board_list[i],
                    active: a.board_list[i] == a.board.name,
                    selected: i == a.board_selected,
                },
        ),
    }
}

/// The screen for a state of the engine.
pub open spec fn screen_of(a: AppView) -> ScreenView {
    ScreenView {
        title: title_text(a),
        columns: Seq::new(a.board.columns.len(), |c: int| column_layout(a, c)),
        status: status_text(a),
        help: a.mode == Mode::Help,
        picker: if a.mode == Mode::BoardPicker {
            Some(picker_layout(a))
        } else {
            None
        },
    }
}

/// The rectangle of the given size centred in `r`, cut down to `r` where it
/// is larger.
pub open spec fn centered(width: u16, height: u16, r: Area) -> Area {
    Area {
        x: (r.x + (if r.width > width {
            r.width - width
        } else {
            0
        }) / 2) as u16,
        y: (r.y + (if r.height > height {
            r.height - height
        } else {
            0
        }) / 2) as u16,
        width: if width < r.width {
            width
        } else {
            r.width
        },
        height: if height < r.height {
            height
        } else {
            r.height
        },
    }
}

// ---------------------------------------------------------------------------
// Building the screen
// ---------------------------------------------------------------------------

/// The number of cards that are not archived.
pub fn active_count(board: &Board) -> (n: usize)
    ensures
        n == count_in_scope(board@.cards, whole_board()),
{
    let mut n: usize = 0;
    let mut i: usize = 0;
    while i < board.cards.len()
        invariant
            i <= board.cards.len(),
            n <= i,
            n == count_in_scope(board@.cards.take(i as int), whole_board()),
        decreases board.cards.len() - i,
    {
        proof {
            let all = board@.cards;
            assert(all.take(i + 1).drop_last() =~= all.take(i as int));
            assert(all.take(i + 1).last() == board.cards[i as int]@);
        }
        if !board.cards[i].archived {
            n += 1;
        }
        i += 1;
    }
    assert(board@.cards.take(i as int) =~= board@.cards);
    n
}

fn draw_title_bar(app: &App) -> (r: String)
    ensures
        r@ == title_text(app@),
{
    let mut out = concat(" kuk  │  ", app.board.name.as_str());
    out.append("  │  ");
    out.append(decimal(active_count(&app.board)).as_str());
    out.append(" cards");
    out
}

fn draw_item(card: &Card, selected: bool) -> (r: ItemLayout)
    ensures
        r@ == (ItemView { text: item_text(card@), selected }),
{
    let mut text = card.title.clone();
    if card.labels.len() > 0 {
        text.append(" [");
        text.append(join(&card.labels, ",").as_str());
        text.append("]");
    }
    if let Some(a) = &card.assignee {
        text.append(" @");
        text.append(a.as_str());
    }
    assert(text@ =~= item_text(card@));
    ItemLayout { text, selected }
}

/// The head of a column from its name in capitals, the number of cards it
/// shows and its limit.
pub fn column_header(upper: &str, count: usize, limit: Option<u32>) -> (r: String)
    ensures
        r@ == header_of(upper@, count as nat, limit),
{
    let shown = decimal(count);
    let mut header = upper.to_owned();
    header.append(" (");
    header.append(shown.as_str());
    header.append(")");
    if let Some(limit) = limit {
        header.append(" [");
        header.append(shown.as_str());
        header.append("/");
        header.append(decimal(limit as usize).as_str());
        header.append("]");
    }
    assert(header@ =~= header_of(upper@, count as nat, limit));
    header
}

fn draw_column(app: &App, col: usize) -> (r: ColumnLayout)
    requires
        col < app.board.columns.len(),
    ensures
        r@ == column_layout(app@, col as int),
{
    let shown = app.visible(col);
    let column = &app.board.columns[col];
    assert(column@ == app@.board.columns[col as int]);
    let header = column_header(
        to_uppercase(column.name.as_str()).as_str(),
        shown.len(),
        column.wip_limit,
    );
    let in_column = col == app.selected_col;
    let mut items: Vec<ItemLayout> = Vec::new();
    let mut j: usize = 0;
    while j < shown.len()
        invariant
            j <= shown.len(),
            items.len() == j,
            as_ints(shown@) == visible(app@, col as int),
            in_column == (col == app.selected_col),
            forall|k: int| 0 <= k < shown.len() ==> shown[k] < app.board.cards.len(),
            forall|k: int|
                0 <= k < j ==> (#[trigger] items[k])@ == column_layout(app@, col as int).items[k],
        decreases shown.len() - j,
    {
        assert(as_ints(shown@)[j as int] == shown[j as int]);
        assert(app@.board.cards[shown[j as int] as int] == app.board.cards[shown[j as int] as int]@);
        items.push(draw_item(&app.board.cards[shown[j]], in_column && j == app.selected_row));
        j += 1;
    }
    let r = ColumnLayout { header, selected: in_column, items };
    assert(r@.items =~= column_layout(app@, col as int).items);
    r
}

fn draw_board(app: &App) -> (r: Vec<ColumnLayout>)
    ensures
        r@.map_values(|c: ColumnLayout| c@) == Seq::new(
            app@.board.columns.len(),
            |c: int| column_layout(app@, c),
        ),
{
    let mut out: Vec<ColumnLayout> = Vec::new();
    let mut col: usize = 0;
    while col < app.board.columns.len()
        invariant
            col <= app.board.columns.len(),
            out.len() == col,
            forall|k: int| 0 <= k < col ==> (#[trigger] out[k])@ == column_layout(app@, k),
        decreases app.board.columns.len() - col,
    {
        out.push(draw_column(app, col));
        col += 1;
    }
    assert(out@.map_values(|c: ColumnLayout| c@) =~= Seq::new(
        app@.board.columns.len(),
        |c: int| column_layout(app@, c),
    ));
    out
}

fn mode_name(mode: Mode) -> (r: &'static str)
    ensures
        r@ == mode_text(mode),
{
    match mode {
        Mode::Normal => "NORMAL",
        Mode::Insert => "INSERT",
        Mode::Search => "SEARCH",
        Mode::Help => "HELP",
        Mode::Confirm => "CONFIRM",
        Mode::BoardPicker => "BOARDS",
    }
}

fn draw_status_bar(app: &App) -> (r: String)
    ensures
        r@ == status_text(app@),
{
    let mut out = concat(" ", mode_name(app.mode));
    out.append(" │ ");
    match app.mode {
        Mode::Insert => {
            out.append(app.input_buf.as_str());
        },
        Mode::Search => {
            out.append("/");
            out.append(app.search_buf.as_str());
        },
        _ => {
            match &app.message {
                Some(m) => {
                    out.append(m.as_str());
                },
                None => {
                    out.append("? for help");
                },
            }
        },
    }
    assert(out@ =~= status_text(app@));
    out
}

fn draw_board_picker_overlay(app: &App) -> (r: PickerLayout)
    ensures
        r@ == picker_layout(app@),
{
    let boards = app.board_list.len();
    let height: u16 = if boards >= 16 {
        20
    } else {
        (boards + 4) as u16
    };
    let mut items: Vec<PickerItem> = Vec::new();
    let mut i: usize = 0;
    while i < boards
        invariant
            i <= boards,
            boards == app.board_list.len(),
            items.len() == i,
            forall|k: int| 0 <= k < i ==> (#[trigger] items[k])@ == picker_layout(app@).items[k],
        decreases boards - i,
    {
        let name = app.board_list[i].as_str();
        assert(name@ == app@.board_list[i as int]);
        let active = str_eq(name, app.board.name.as_str());
        let text = concat(if active {
            "* "
        } else {
            "  "
        }, name);
        items.push(PickerItem { text, active, selected: i == app.board_selected });
        i += 1;
    }
    let r = PickerLayout { width: 40, height, items };
    assert(r@.items =~= picker_layout(app@).items);
    r
}

/// The lines of the help overlay: the keys and what they do.
pub open spec fn help_text() -> Seq<Seq<char>> {
    seq![
        "  kuk — Keyboard Reference"@,
        ""@,
        "  Navigation"@,
        "    h/l or ←/→    Switch columns"@,
        "    j/k or ↓/↑    Move up/down"@,
        "    gg             Jump to top"@,
        "    G              Jump to bottom"@,
        ""@,
        "  Actions"@,
        "    a              Add card to current column"@,
        "    d              Delete card (with confirm)"@,
        "    x              Archive card"@,
        "    L / >          Move card right"@,
        "    H / <          Move card left"@,
        "    K              Hoist (move to top)"@,
        "    J              Demote (move to bottom)"@,
        ""@,
        "  Other"@,
        "    b              Switch board"@,
        "    /              Search"@,
        "    r              Refresh board"@,
        "    ?              Toggle help"@,
        "    q / Ctrl+C     Quit"@,
        ""@,
        "  Press Esc or ? to close"@,
    ]
}

/// The lines of the help overlay. The first line is its heading, the last
/// one says how to close it.
pub fn draw_help_overlay() -> (lines: Vec<&'static str>)
    ensures
        lines@.map_values(|l: &'static str| l@) == help_text(),
{
    let lines = vec![
        "  kuk — Keyboard Reference",
        "",
        "  Navigation",
        "    h/l or ←/→    Switch columns",
        "    j/k or ↓/↑    Move up/down",
        "    gg             Jump to top",
        "    G              Jump to bottom",
        "",
        "  Actions",
        "    a              Add card to current column",
        "    d              Delete card (with confirm)",
        "    x              Archive card",
        "    L / >          Move card right",
        "    H / <          Move card left",
        "    K              Hoist (move to top)",
        "    J              Demote (move to bottom)",
        "",
        "  Other",
        "    b              Switch board",
        "    /              Search",
        "    r              Refresh board",
        "    ?              Toggle help",
        "    q / Ctrl+C     Quit",
        "",
        "  Press Esc or ? to close",
    ];
    assert(lines@.map_values(|l: &'static str| l@) =~= help_text());
    lines
}

/// How far a span of `inner` cells starts inside one of `outer` cells that
/// it is centred in; not at all where it is the longer one.
pub open spec fn inset(outer: u16, inner: u16) -> int {
    if outer > inner {
        (outer - inner) / 2
    } else {
        0
    }
}

/// The share of a length, in percent, that is left on either side of a
/// part in its middle which takes `percent` of it: half of the rest,
/// rounded down.
pub fn side_percent(percent: u16) -> (side: u16)
    requires
        percent <= 100,
    ensures
        side == (100 - percent) / 2,
{
    (100 - percent) / 2
}

/// The corner of the centred rectangle is a cell of the grid: neither of
/// its coordinates passes the highest there is.
pub open spec fn can_center(width: u16, height: u16, r: Area) -> bool {
    r.x + inset(r.width, width) <= u16::MAX && r.y + inset(r.height, height) <= u16::MAX
}

/// Whether a rectangle of the given size can be centred in `r`.
pub fn fits_centered(width: u16, height: u16, r: Area) -> (ok: bool)
    ensures
        ok == can_center(width, height, r),
{
    let dx = r.width.saturating_sub(width) / 2;
    let dy = r.height.saturating_sub(height) / 2;
    r.x <= u16::MAX - dx && r.y <= u16::MAX - dy
}

/// The rectangle of the given size centred in `r`, cut down to `r` where it
/// is larger.
pub fn centered_fixed(width: u16, height: u16, r: Area) -> (area: Area)
    requires
        can_center(width, height, r),
    ensures
        area == centered(width, height, r),
{
    let x = r.x + r.width.saturating_sub(width) / 2;
    let y = r.y + r.height.saturating_sub(height) / 2;
    Area {
        x,
        y,
        width: if width < r.width {
            width
        } else {
            r.width
        },
        height: if height < r.height {
            height
        } else {
            r.height
        },
    }
}

/// The screen for the engine's state: the title bar, each column with the
/// cards it shows and the selection, the status bar, and the overlay of the
/// mode if it has one.
pub fn draw(app: &App) -> (screen: Screen)
    ensures
        screen@ == screen_of(app@),
{
    let screen = Screen {
        title: draw_title_bar(app),
        columns: draw_board(app),
        status: draw_status_bar(app),
        help: app.mode == Mode::Help,
        picker: if app.mode == Mode::BoardPicker {
            Some(draw_board_picker_overlay(app))
        } else {
            None
        },
    };
    assert(screen@ =~= screen_of(app@));
    screen
}

} // verus!
