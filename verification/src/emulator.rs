//! The terminal emulator: the `vt100` crate behind a handful of calls.
//!
//! The bytes of a scrollback are fed to a `vt100::Parser`, and what is left is
//! a `vt100::Screen`: the rows that scrolled off, up to a capacity, and the
//! rows of the live view. The screen shows a window of as many rows as the live
//! view has; an offset says how far above the live view the window stands.
//! Nothing in this file is proved: the contracts say what the crate's source
//! shows, and the rest of the library is proved against them.

use vstd::prelude::*;
use crate::palette::Color;

verus! {

/// The style of a cell. Two cells look alike if and only if all seven fields
/// are equal.
#[derive(Debug, Clone, Copy, PartialEq, Eq, Structural)]
pub struct CellAttrs {
    pub fg: Color,
    pub bg: Color,
    pub bold: bool,
    pub dim: bool,
    pub italic: bool,
    pub underline: bool,
    pub inverse: bool,
}

/// One position of the grid.
#[derive(Debug, Clone, PartialEq, Eq)]
pub struct Cell {
    /// The text of the cell; empty for a blank cell.
    pub contents: String,
    /// Whether this is the second column of a glyph that takes two.
    pub wide_continuation: bool,
    pub attrs: CellAttrs,
}

/// A cell with its text as a character sequence.
pub struct CellView {
    pub contents: Seq<char>,
    pub wide_continuation: bool,
    pub attrs: CellAttrs,
}

impl View for Cell {
    type V = CellView;

    open spec fn view(&self) -> CellView {
        CellView {
            contents: self.contents@,
            wide_continuation: self.wide_continuation,
            attrs: self.attrs,
        }
    }
}

/// The cells of a vector, each by its view.
pub open spec fn cell_views(cells: Seq<Cell>) -> Seq<CellView> {
    cells.map_values(|c: Cell| c@)
}

/// `vt100::Screen`, of which nothing is seen here but what the names below
/// say.
#[verifier::external_type_specification]
#[verifier::external_body]
pub struct ExScreen(vt100::Screen);

/// The rows that a screen holds, oldest first: the rows of its scrollback, then
/// the rows of the live view, each with its cells in the order of the columns.
pub uninterp spec fn screen_rows(screen: vt100::Screen) -> Seq<Seq<CellView>>;

/// How many of the rows of `screen_rows` are scrollback.
pub uninterp spec fn scrollback_rows(screen: vt100::Screen) -> nat;

/// How many rows above the live view the window of a screen stands.
pub uninterp spec fn viewport_offset(screen: vt100::Screen) -> nat;

/// The rows that a terminal of the given size and scrollback capacity holds
/// once the bytes have gone through it.
pub uninterp spec fn emulated_rows(rows: u16, cols: u16, capacity: usize, data: Seq<u8>) -> Seq<
    Seq<CellView>,
>;

/// No cell of the rows holds a line feed.
pub open spec fn without_line_feed(rows: Seq<Seq<CellView>>) -> bool {
    forall|i: int, j: int, k: int|
        0 <= i < rows.len() && 0 <= j < rows[i].len() && 0 <= k < rows[i][j].contents.len()
            ==> #[trigger] rows[i][j].contents[k] != '\n'
}

/// The cell that the window shows at a row and a column: the window starts
/// `offset` rows above the live view and is as high as the live view.
pub open spec fn visible_cell(
    rows: Seq<Seq<CellView>>,
    retained: nat,
    offset: nat,
    row: int,
    col: int,
) -> Option<CellView> {
    let at = retained - offset + row;
    if 0 <= row && retained + row < rows.len() && 0 <= col < rows[at].len() {
        Some(rows[at][col])
    } else {
        None
    }
}

/// Runs the bytes through a new terminal: `vt100::Parser::new`, then
/// `Parser::process`, and a copy of `Parser::screen`. The contract names the
/// rows that result, and claims of them that the live view has `rows` rows
/// (the grid is made with that many and scrolling keeps their number) and that
/// the scrollback holds at most `capacity` rows (each row that scrolls off is
/// followed by dropping the oldest beyond the capacity), and that no cell
/// holds a line feed (a cell gets its text from printed characters alone, and
/// of those the crate passes over every control character). The grids are
/// left out on which the crate's arithmetic leaves the range of its numbers:
/// one row, when text wraps at the right margin; fewer than three columns,
/// when a character arrives that is wider than the grid, and the widest takes
/// three; more than 65527 columns, when a tab comes with the cursor in the
/// last eight of them.
#[verifier::external_body]
pub(crate) fn emulate(rows: u16, cols: u16, capacity: usize, data: &[u8]) -> (screen:
    vt100::Screen)
    requires
        rows >= 2,
        3 <= cols <= 65527,
    ensures
        screen_rows(screen) == emulated_rows(rows, cols, capacity, data@),
        screen_rows(screen).len() == scrollback_rows(screen) + rows,
        scrollback_rows(screen) <= capacity,
        without_line_feed(screen_rows(screen)),
{
    let mut parser = vt100::Parser::new(rows, cols, capacity);
    parser.process(data);
    parser.screen().clone()
}

/// `vt100::Screen::set_scrollback`: moves the window to `offset` rows above
/// the live view, or to the oldest row if there are fewer. The rows stay.
#[verifier::external_body]
pub(crate) fn set_scrollback(screen: &mut vt100::Screen, offset: usize)
    ensures
        screen_rows(*final(screen)) == screen_rows(*old(screen)),
        scrollback_rows(*final(screen)) == scrollback_rows(*old(screen)),
        viewport_offset(*final(screen)) == if offset <= scrollback_rows(*old(screen)) {
            offset as nat
        } else {
            scrollback_rows(*old(screen))
        },
{
    screen.set_scrollback(offset)
}

/// `vt100::Screen::scrollback`: where the window stands.
#[verifier::external_body]
pub(crate) fn scrollback(screen: &vt100::Screen) -> (offset: usize)
    ensures
        offset == viewport_offset(*screen),
{
    screen.scrollback()
}

/// `vt100::Screen::cell`, with the cell copied into the library's own type:
/// the cell of the window at a row and a column, or `None` below the window
/// or right of the row's cells.
#[verifier::external_body]
pub(crate) fn cell(screen: &vt100::Screen, row: u16, col: u16) -> (r: Option<Cell>)
    requires
        viewport_offset(*screen) <= scrollback_rows(*screen) <= screen_rows(*screen).len(),
    ensures
        match r {
            Some(c) => visible_cell(
                screen_rows(*screen),
                scrollback_rows(*screen),
                viewport_offset(*screen),
                row as int,
                col as int,
            ) == Some(c@),
            None => visible_cell(
                screen_rows(*screen),
                scrollback_rows(*screen),
                viewport_offset(*screen),
                row as int,
                col as int,
            ) is None,
        },
{
    let color = |c: vt100::Color| match c {
        vt100::Color::Default => Color::Default,
        vt100::Color::Rgb(r, g, b) => Color::Rgb { r, g, b },
        vt100::Color::Idx(idx) => Color::Indexed { idx },
    };
    screen.cell(row, col).map(|c| Cell {
        contents: c.contents().to_string(),
        wide_continuation: c.is_wide_continuation(),
        attrs: CellAttrs {
            fg: color(c.fgcolor()), bg: color(c.bgcolor()),
            bold: c.bold(), dim: c.dim(), italic: c.italic(),
            underline: c.underline(), inverse: c.inverse(),
        },
    })
}

} // verus!
