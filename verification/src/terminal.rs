//! Reconstruction of the screen: the bytes of a scrollback go through the
//! terminal emulator, and every row it holds, from the oldest row of the
//! scrollback to the last row of the live view, becomes a line of text with
//! the spans of its styles. The cursor of the live terminal is placed on its
//! line, at the byte where its cell starts.

use vstd::prelude::*;
use vstd::string::StringExecFns;
use crate::emulator::{
    cell,
    cell_views,
    emulate,
    emulated_rows,
    screen_rows,
    scrollback,
    scrollback_rows,
    set_scrollback,
    viewport_offset,
    Cell,
    CellView,
};
use crate::face::cell_face;
use crate::kitty::PipeData;
use crate::lex::{blank_trimmed_len, lemma_drop_blanks_end_prefix};
use crate::model::{
    cells_on_one_line,
    clip_spans,
    cursor_cell_in_text,
    cursor_in_text,
    cursor_col,
    drop_blank_lines_end,
    finish,
    glyph,
    lemma_cursor_in_text,
    lemma_drop_blank_lines_end,
    lemma_filter_all,
    lemma_row_line_ok,
    lemma_row_text_on_one_line,
    lemma_scan_ok,
    lemma_screen_of_ok,
    lemma_screen_on_one_line,
    line_ok,
    lines_on_one_line,
    on_one_line,
    render_rows,
    row_line,
    row_spans,
    row_text,
    scan,
    screen_of,
    screen_ok,
    spans_ordered,
    starts_before,
    visible_cells,
    LineView,
    ScreenView,
    SpanView,
};
use crate::shown::{cells_shown, lemma_row_line_shows};
use crate::text::{
    byte_len,
    chars_of,
    lemma_utf8_len_concat,
    lemma_utf8_len_push,
    lemma_utf8_len_take,
    push_char,
    push_chars,
    utf8_len,
};

verus! {

/// Where the cursor stands in the buffer: the line, counted from one, and the
/// byte offset in it, counted from one.
#[derive(Debug, Clone, Copy, PartialEq, Eq, Structural)]
pub struct CursorPosition {
    pub line: usize,
    pub col: usize,
}

/// A run of bytes of a line that is shown with one face. Offsets count from
/// one; `end_byte` is the offset after the last byte.
#[derive(Debug, Clone, PartialEq, Eq)]
pub struct Span {
    pub start_byte: usize,
    pub end_byte: usize,
    pub face: String,
}

/// A line of the buffer: its text, without a line end, and its spans.
#[derive(Debug, Clone, PartialEq, Eq)]
pub struct ProcessedLine {
    pub text: String,
    pub spans: Vec<Span>,
}

/// The reconstructed screen: the lines of the buffer, the cursor, and the
/// line of the buffer that was the first line of the live view.
#[derive(Debug, Clone, PartialEq, Eq)]
pub struct ProcessedScreen {
    pub lines: Vec<ProcessedLine>,
    pub cursor: CursorPosition,
    pub viewport_top: usize,
}

/// How many rows of scrollback are kept where nothing else is asked for.
pub const DEFAULT_MAX_SCROLLBACK_LINES: usize = 200_000;

impl View for Span {
    type V = SpanView;

    open spec fn view(&self) -> SpanView {
        SpanView { start: self.start_byte as nat, end: self.end_byte as nat, face: self.face@ }
    }
}

/// The spans of a vector, each by its view.
pub open spec fn span_views(spans: Seq<Span>) -> Seq<SpanView> {
    spans.map_values(|s: Span| s@)
}

impl View for ProcessedLine {
    type V = LineView;

    open spec fn view(&self) -> LineView {
        LineView { text: self.text@, spans: span_views(self.spans@) }
    }
}

/// The lines of a vector, each by its view.
pub open spec fn line_views(lines: Seq<ProcessedLine>) -> Seq<LineView> {
    lines.map_values(|l: ProcessedLine| l@)
}

impl View for ProcessedScreen {
    type V = ScreenView;

    open spec fn view(&self) -> ScreenView {
        ScreenView {
            lines: line_views(self.lines@),
            cursor_line: self.cursor.line as nat,
            cursor_col: self.cursor.col as nat,
            viewport_top: self.viewport_top as nat,
        }
    }
}

// ---------------------------------------------------------------------------
// A row
// ---------------------------------------------------------------------------

fn same_face(a: &Option<String>, b: &Option<String>) -> (r: bool)
    ensures
        r == match (*a, *b) {
            (Some(x), Some(y)) => x@ == y@,
            (None, None) => true,
            _ => false,
        },
{
    match (a, b) {
        (Some(x), Some(y)) => *x == *y,
        (None, None) => true,
        _ => false,
    }
}

/// Takes off the spans that start at `max_byte` or later, which are the last
/// ones, and ends the last of the others at `max_byte` if it reaches further.
fn clip(spans: &mut Vec<Span>, max_byte: usize)
    requires
        spans_ordered(span_views(old(spans)@)),
        forall|k: int|
            0 <= k < old(spans).len() ==> (#[trigger] old(spans)[k]).start_byte < old(
                spans,
            )[k].end_byte,
    ensures
        span_views(final(spans)@) == clip_spans(span_views(old(spans)@), max_byte as nat),
{
    let ghost all = span_views(spans@);
    let ghost pred = starts_before(max_byte as nat);
    while spans.len() > 0 && spans[spans.len() - 1].start_byte >= max_byte
        invariant
            all == span_views(old(spans)@),
            pred == starts_before(max_byte as nat),
            spans.len() <= old(spans).len(),
            spans@ == old(spans)@.take(spans.len() as int),
            all.filter(pred) == span_views(spans@).filter(pred),
        decreases spans.len(),
    {
        let ghost before = span_views(spans@);
        proof {
            reveal(Seq::filter);
        }
        spans.pop();
        assert(span_views(spans@) =~= before.drop_last());
    }
    let ghost kept = span_views(spans@);
    proof {
        let n = spans.len() as int;
        assert forall|k: int| 0 <= k < kept.len() implies (#[trigger] kept[k]).start
            < max_byte by {
            assert(kept[k] == all[k]);
            assert(kept[n - 1] == all[n - 1]);
        }
        lemma_filter_all(kept, max_byte as nat);
    }
    let n = spans.len();
    if n > 0 && spans[n - 1].end_byte > max_byte {
        match spans.pop() {
            Some(last) => {
                spans.push(Span { start_byte: last.start_byte, end_byte: max_byte, face: last.face });
            },
            None => {},
        }
    }
}

/// The line of a row of cells. On the cursor's line the cursor's column
/// becomes the byte offset, counted from one, at which the cell of the
/// cursor's column starts; it stays as it is where the row has no such cell or
/// the cell is the second column of a wide glyph.
pub fn process_row(
    cells: &Vec<Cell>,
    pipe_data: &PipeData,
    is_cursor_line: bool,
    cursor: &mut CursorPosition,
    palette: &[u8; 48],
) -> (line: ProcessedLine)
    ensures
        line@ == row_line(cell_views(cells@), palette@),
        line_ok(line@),
        cells_shown(cell_views(cells@), palette@, line@.spans, utf8_len(line@.text) + 1),
        cells_on_one_line(cell_views(cells@)) ==> on_one_line(line@.text),
        final(cursor).line == old(cursor).line,
        final(cursor).col == if is_cursor_line && pipe_data.cursor_x < cells.len()
            && !cells[pipe_data.cursor_x as int].wide_continuation {
            cursor_col(cell_views(cells@), pipe_data.cursor_x as int)
        } else {
            old(cursor).col as nat
        },
{
    let ghost views = cell_views(cells@);
    let mut text = String::new();
    let mut spans: Vec<Span> = Vec::new();
    let mut current_face: Option<String> = None;
    let mut span_start_byte: usize = 1;
    let mut text_len: usize = 0;
    let mut i: usize = 0;
    while i < cells.len()
        invariant
            i <= cells.len(),
            views == cell_views(cells@),
            text@ == row_text(views.take(i as int)),
            text_len == utf8_len(text@),
            span_views(spans@) == scan(views.take(i as int), palette@).spans,
            match current_face {
                Some(f) => scan(views.take(i as int), palette@).open == Some(
                    (span_start_byte as nat, f@),
                ),
                None => scan(views.take(i as int), palette@).open is None,
            },
            cursor.line == old(cursor).line,
            cursor.col == if is_cursor_line && pipe_data.cursor_x < i
                && !cells[pipe_data.cursor_x as int].wide_continuation {
                cursor_col(views, pipe_data.cursor_x as int)
            } else {
                old(cursor).col as nat
            },
        decreases cells.len() - i,
    {
        let cell = &cells[i];
        let ghost walked = views.take(i as int);
        proof {
            assert(views.take(i + 1).drop_last() =~= walked);
            lemma_scan_ok(walked, palette@);
            lemma_utf8_len_concat(row_text(walked), glyph(cell@));
        }
        if !cell.wide_continuation {
            let byte_offset_before = text_len;
            if cell.contents.as_str().is_empty() {
                push_char(&mut text, ' ');
                assert(text@ =~= row_text(walked) + glyph(cell@));
            } else {
                text.append(cell.contents.as_str());
            }
            text_len = byte_len(text.as_str());
            let byte_now = byte_offset_before + 1;
            if is_cursor_line && i == pipe_data.cursor_x {
                cursor.col = byte_now;
            }
            let face = cell_face(cell, palette);
            if !same_face(&face, &current_face) {
                match current_face {
                    Some(f) => {
                        if span_start_byte < byte_now {
                            spans.push(
                                Span { start_byte: span_start_byte, end_byte: byte_now, face: f },
                            );
                        }
                    },
                    None => {},
                }
                current_face = face;
                span_start_byte = byte_now;
            }
        }
        i += 1;
    }
    assert(views.take(cells.len() as int) =~= views);

    // The text gets a closing blank, which goes again with the trailing
    // blanks: with it the offset after the last byte is a length that exists.
    let ghost whole = text@;
    push_char(&mut text, ' ');
    let byte_end = byte_len(text.as_str());
    proof {
        lemma_utf8_len_push(whole, ' ');
        lemma_scan_ok(views, palette@);
        lemma_row_line_ok(views, palette@);
        lemma_row_line_shows(views, palette@);
        if cells_on_one_line(views) {
            lemma_row_text_on_one_line(views);
        }
    }
    match current_face {
        Some(f) => {
            if span_start_byte < byte_end {
                spans.push(Span { start_byte: span_start_byte, end_byte: byte_end, face: f });
            }
        },
        None => {},
    }
    assert(span_views(spans@) =~= row_spans(views, palette@));

    let chars = chars_of(text.as_str());
    let keep = blank_trimmed_len(&chars);
    let mut trimmed = String::new();
    push_chars(&mut trimmed, &chars, 0, keep);
    proof {
        assert(whole.push(' ').drop_last() =~= whole);
        lemma_drop_blanks_end_prefix(whole);
        lemma_utf8_len_take(whole, trimmed@.len() as int, whole.len() as int);
        assert(whole.take(whole.len() as int) =~= whole);
        let l = LineView { text: whole, spans: span_views(spans@) };
        assert forall|k: int| 0 <= k < spans.len() implies (#[trigger] spans[k]).start_byte
            < spans[k].end_byte by {
            assert(l.spans[k] == spans[k]@);
        }
    }
    let max_byte = byte_len(trimmed.as_str()) + 1;
    clip(&mut spans, max_byte);
    ProcessedLine { text: trimmed, spans }
}

// ---------------------------------------------------------------------------
// The screen
// ---------------------------------------------------------------------------

/// Takes off the blank lines at the end, and moves a cursor that stood on one
/// of them to the start of the last line that is left.
pub fn finish_screen(lines: Vec<ProcessedLine>, cursor: CursorPosition, viewport_top: usize) -> (screen:
    ProcessedScreen)
    ensures
        screen@ == finish(
            line_views(lines@),
            cursor.line as nat,
            cursor.col as nat,
            viewport_top as nat,
        ),
{
    let mut lines = lines;
    let mut cursor = cursor;
    let ghost all = line_views(lines@);
    while lines.len() > 0 && lines[lines.len() - 1].text.as_str().is_empty() && lines[lines.len()
        - 1].spans.len() == 0
        invariant
            drop_blank_lines_end(all) == drop_blank_lines_end(line_views(lines@)),
        decreases lines.len(),
    {
        let ghost before = line_views(lines@);
        lines.pop();
        assert(line_views(lines@) =~= before.drop_last());
    }
    if cursor.line > lines.len() {
        cursor.line = if lines.len() > 1 {
            lines.len()
        } else {
            1
        };
        cursor.col = 1;
    }
    ProcessedScreen { lines, cursor, viewport_top }
}

/// The row of the emulator's history that the window shows at `row`.
pub open spec fn window_row(screen: vt100::Screen, row: int) -> int {
    scrollback_rows(screen) - viewport_offset(screen) + row
}

/// The window of the emulator stands within its rows, and `row` is a row of
/// the window.
pub open spec fn row_in_window(screen: vt100::Screen, row: int) -> bool {
    &&& viewport_offset(screen) <= scrollback_rows(screen) <= screen_rows(screen).len()
    &&& 0 <= row
    &&& scrollback_rows(screen) + row < screen_rows(screen).len()
}

/// Reads the cells of a row of the window, from the left, as far as the row
/// has cells within `cols` columns.
fn read_row(screen: &vt100::Screen, row: u16, cols: u16) -> (cells: Vec<Cell>)
    requires
        row_in_window(*screen, row as int),
    ensures
        cell_views(cells@) == visible_cells(
            screen_rows(*screen)[window_row(*screen, row as int)],
            cols as nat,
        ),
{
    let ghost model = screen_rows(*screen)[window_row(*screen, row as int)];
    let mut cells: Vec<Cell> = Vec::new();
    let mut col: u16 = 0;
    while col < cols
        invariant_except_break
            col <= cols,
            col <= model.len(),
            cell_views(cells@) == model.take(col as int),
        invariant
            row_in_window(*screen, row as int),
            model == screen_rows(*screen)[window_row(*screen, row as int)],
        ensures
            cell_views(cells@) == visible_cells(model, cols as nat),
        decreases cols - col,
    {
        match cell(screen, row, col) {
            Some(c) => {
                let ghost walked = cell_views(cells@);
                cells.push(c);
                assert(cell_views(cells@) =~= walked.push(c@));
                col += 1;
            },
            None => {
                break ;
            },
        }
    }
    cells
}

/// Adds the line of a row of cells to the lines. The row before which
/// `total_sb + pipe_data.cursor_y` lines stand is the cursor's: the cursor
/// moves to its line, and to the byte at which the cell of the cursor's
/// column starts, as `process_row` places it.
pub fn push_row(
    cells: &Vec<Cell>,
    pipe_data: &PipeData,
    total_sb: usize,
    lines: &mut Vec<ProcessedLine>,
    cursor: &mut CursorPosition,
    palette: &[u8; 48],
)
    ensures
        line_views(final(lines)@) == line_views(old(lines)@).push(
            row_line(cell_views(cells@), palette@),
        ),
        line_ok(row_line(cell_views(cells@), palette@)),
        old(lines).len() == total_sb + pipe_data.cursor_y ==> final(cursor).line == old(lines).len()
            + 1 && final(cursor).col == if pipe_data.cursor_x < cells.len()
            && !cells[pipe_data.cursor_x as int].wide_continuation {
            cursor_col(cell_views(cells@), pipe_data.cursor_x as int)
        } else {
            old(cursor).col as nat
        },
        old(lines).len() != total_sb + pipe_data.cursor_y ==> *final(cursor) == *old(cursor),
{
    let line_idx = lines.len();
    let is_cursor_line = line_idx >= total_sb && line_idx - total_sb == pipe_data.cursor_y;
    let pline = process_row(cells, pipe_data, is_cursor_line, cursor, palette);
    lines.push(pline);
    if is_cursor_line {
        cursor.line = lines.len();
    }
}

/// The rows that a terminal of the grid's size holds once the bytes have gone
/// through it, if it keeps up to `max_scrollback_lines` rows above the live
/// view.
pub open spec fn terminal_rows(pd: PipeData, data: Seq<u8>, max_scrollback_lines: usize) -> Seq<
    Seq<CellView>,
> {
    emulated_rows(pd.lines, pd.columns, max_scrollback_lines, data)
}

/// Reconstructs the screen from the bytes of a scrollback. The bytes go
/// through a terminal of the grid's size that keeps up to
/// `max_scrollback_lines` rows above the live view; the rows it then holds,
/// which are those of the live view and no more than that many above them,
/// become the lines of the buffer, the oldest first. The screen is well
/// formed, none of its lines holds a line feed, and its cursor stands within
/// the text of its line unless it stood among the trailing blanks of a line
/// that stays.
pub fn process_bytes(
    pipe_data: &PipeData,
    data: &[u8],
    palette: &[u8; 48],
    max_scrollback_lines: usize,
) -> (screen: ProcessedScreen)
    requires
        pipe_data.valid(),
        pipe_data.emulable(),
    ensures
        screen@ == screen_of(
            terminal_rows(*pipe_data, data@, max_scrollback_lines),
            *pipe_data,
            palette@,
        ),
        pipe_data.lines <= terminal_rows(*pipe_data, data@, max_scrollback_lines).len()
            <= pipe_data.lines + max_scrollback_lines,
        screen@.lines.len() <= terminal_rows(*pipe_data, data@, max_scrollback_lines).len(),
        screen_ok(screen@),
        lines_on_one_line(screen@.lines),
        cursor_in_text(screen@) == cursor_cell_in_text(
            terminal_rows(*pipe_data, data@, max_scrollback_lines),
            *pipe_data,
            palette@,
        ),
{
    let rows = pipe_data.lines;
    let mut emulator = emulate(rows, pipe_data.columns, max_scrollback_lines, data);
    let ghost history = screen_rows(emulator);
    let ghost all = render_rows(history, pipe_data.columns as nat, palette@);

    // Where the window stands at most is how many rows the scrollback holds.
    set_scrollback(&mut emulator, usize::MAX);
    let total_sb = scrollback(&emulator);
    let ghost target = total_sb + pipe_data.cursor_y;

    let mut lines: Vec<ProcessedLine> = Vec::new();
    let mut cursor = CursorPosition { line: 1, col: 1 };

    // The window at its highest shows the oldest rows.
    let mut row: u16 = 0;
    while row < rows
        invariant
            row <= rows == pipe_data.lines,
            pipe_data.valid(),
            history == screen_rows(emulator),
            history.len() == total_sb + rows,
            scrollback_rows(emulator) == total_sb,
            viewport_offset(emulator) == total_sb,
            all == render_rows(history, pipe_data.columns as nat, palette@),
            target == total_sb + pipe_data.cursor_y,
            lines.len() == row,
            line_views(lines@) == all.take(row as int),
            if row > target {
                cursor.line == target + 1 && cursor.col == cursor_col(
                    visible_cells(history[target], pipe_data.columns as nat),
                    pipe_data.cursor_x as int,
                )
            } else {
                cursor.line == 1 && cursor.col == 1
            },
        decreases rows - row,
    {
        let cells = read_row(&emulator, row, pipe_data.columns);
        push_row(&cells, pipe_data, total_sb, &mut lines, &mut cursor, palette);
        assert(line_views(lines@) =~= all.take(row + 1));
        row += 1;
    }

    // Each step down shows one more row at the bottom of the window.
    let mut offset: usize = total_sb;
    while offset > 0
        invariant
            offset <= total_sb,
            rows == pipe_data.lines,
            pipe_data.valid(),
            history == screen_rows(emulator),
            history.len() == total_sb + rows,
            scrollback_rows(emulator) == total_sb,
            all == render_rows(history, pipe_data.columns as nat, palette@),
            target == total_sb + pipe_data.cursor_y,
            lines.len() == rows + (total_sb - offset),
            line_views(lines@) == all.take(lines.len() as int),
            if lines.len() > target {
                cursor.line == target + 1 && cursor.col == cursor_col(
                    visible_cells(history[target], pipe_data.columns as nat),
                    pipe_data.cursor_x as int,
                )
            } else {
                cursor.line == 1 && cursor.col == 1
            },
        decreases offset,
    {
        offset -= 1;
        set_scrollback(&mut emulator, offset);
        let ghost at = lines.len() as int;
        let cells = read_row(&emulator, rows - 1, pipe_data.columns);
        push_row(&cells, pipe_data, total_sb, &mut lines, &mut cursor, palette);
        assert(line_views(lines@) =~= all.take(at + 1));
    }
    proof {
        assert(all.take(lines.len() as int) =~= all);
        lemma_screen_of_ok(history, *pipe_data, palette@);
        lemma_cursor_in_text(history, *pipe_data, palette@);
        lemma_drop_blank_lines_end(all);
        assert forall|i: int| 0 <= i < history.len() implies cells_on_one_line(
            #[trigger] history[i],
        ) by {
            assert forall|j: int, k: int|
                0 <= j < history[i].len() && 0 <= k < history[i][j].contents.len() implies #[trigger] history[i][j].contents[k]
                != '\n' by {}
        }
        lemma_screen_on_one_line(history, *pipe_data, palette@);
    }
    finish_screen(lines, cursor, total_sb + 1)
}

} // verus!
