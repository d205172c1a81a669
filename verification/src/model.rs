//! What a reconstructed screen is, stated over sequences: the text and the
//! spans of a row of cells, the lines of a screen and the place of its
//! cursor, and the properties that hold of every such screen.
//!
//! Offsets into a line count bytes of its UTF-8 encoding and start at one; the
//! end of a span is the offset after its last byte.

use vstd::prelude::*;
use vstd::utf8::{encode_utf8, encode_utf8_valid_utf8, is_char_boundary, valid_utf8};
use crate::emulator::CellView;
use crate::face::{face_of, is_face, lemma_face_form};
use crate::kitty::PipeData;
use crate::lex::{drop_blanks_end, lemma_drop_blanks_end_prefix};
use crate::text::{
    is_boundary,
    lemma_boundary_is_char_boundary,
    lemma_utf8_len_concat,
    lemma_utf8_len_take,
    utf8_len,
};

verus! {

/// A run of bytes of a line that is shown with one face.
pub struct SpanView {
    pub start: nat,
    pub end: nat,
    pub face: Seq<char>,
}

/// A line of the buffer.
pub struct LineView {
    pub text: Seq<char>,
    pub spans: Seq<SpanView>,
}

/// A reconstructed screen.
pub struct ScreenView {
    pub lines: Seq<LineView>,
    pub cursor_line: nat,
    pub cursor_col: nat,
    pub viewport_top: nat,
}

// ---------------------------------------------------------------------------
// A row of cells
// ---------------------------------------------------------------------------

/// The text that a cell adds to its line: its contents, or a blank where it
/// has none.
pub open spec fn glyph(c: CellView) -> Seq<char> {
    if c.contents.len() == 0 {
        seq![' ']
    } else {
        c.contents
    }
}

/// The text of a row before its trailing blanks are taken off. The second
/// column of a wide glyph adds nothing.
pub open spec fn row_text(cells: Seq<CellView>) -> Seq<char>
    decreases cells.len(),
{
    if cells.len() == 0 {
        Seq::<char>::empty()
    } else if cells.last().wide_continuation {
        row_text(cells.drop_last())
    } else {
        row_text(cells.drop_last()) + glyph(cells.last())
    }
}

/// The spans of the cells walked so far: those that are complete, and the
/// start and face of the one that the next cell may continue.
pub struct Scan {
    pub spans: Seq<SpanView>,
    pub open: Option<(nat, Seq<char>)>,
}

/// The face of the span that is open, if one is.
pub open spec fn open_face(s: Scan) -> Option<Seq<char>> {
    match s.open {
        Some((_, f)) => Some(f),
        None => None,
    }
}

/// Walks the cells from the left. A cell whose face differs from that of the
/// open span ends that span at the cell's own first byte and, if it has a face,
/// opens one there. The second column of a wide glyph changes nothing.
pub open spec fn scan(cells: Seq<CellView>, palette: Seq<u8>) -> Scan
    decreases cells.len(),
{
    if cells.len() == 0 {
        Scan { spans: Seq::empty(), open: None }
    } else {
        let prev = scan(cells.drop_last(), palette);
        let face = face_of(cells.last().attrs, palette);
        if cells.last().wide_continuation || face == open_face(prev) {
            prev
        } else {
            let at = utf8_len(row_text(cells.drop_last())) + 1;
            Scan {
                spans: close(prev, at),
                open: match face {
                    Some(f) => Some((at, f)),
                    None => None,
                },
            }
        }
    }
}

/// The spans of a scan once the open span is ended at `end`.
pub open spec fn close(s: Scan, end: nat) -> Seq<SpanView> {
    match s.open {
        Some((start, face)) => s.spans.push(SpanView { start, end, face }),
        None => s.spans,
    }
}

/// The spans of a row before its trailing blanks are taken off: one for each
/// longest run of cells with the same face.
pub open spec fn row_spans(cells: Seq<CellView>, palette: Seq<u8>) -> Seq<SpanView> {
    close(scan(cells, palette), utf8_len(row_text(cells)) + 1)
}

/// Whether a span starts before `max`.
pub open spec fn starts_before(max: nat) -> spec_fn(SpanView) -> bool {
    |s: SpanView| s.start < max
}

/// The spans that are left of `spans` when the text ends before `max`: those
/// that start at `max` or later go, and the last of the others ends at `max`
/// at the latest.
pub open spec fn clip_spans(spans: Seq<SpanView>, max: nat) -> Seq<SpanView> {
    let kept = spans.filter(starts_before(max));
    if kept.len() > 0 && kept.last().end > max {
        kept.drop_last().push(SpanView { end: max, ..kept.last() })
    } else {
        kept
    }
}

/// The line of a row of cells: its text without the trailing ASCII
/// whitespace, and its spans as far as they reach into that text.
pub open spec fn row_line(cells: Seq<CellView>, palette: Seq<u8>) -> LineView {
    let text = drop_blanks_end(row_text(cells));
    LineView { text, spans: clip_spans(row_spans(cells, palette), utf8_len(text) + 1) }
}

/// The byte offset at which the cell of column `x` starts, counted from one.
/// It is 1 where the row has no such cell or the cell is the second column of
/// a wide glyph.
pub open spec fn cursor_col(cells: Seq<CellView>, x: int) -> nat {
    if 0 <= x < cells.len() && !cells[x].wide_continuation {
        utf8_len(row_text(cells.take(x))) + 1
    } else {
        1
    }
}

// ---------------------------------------------------------------------------
// A screen
// ---------------------------------------------------------------------------

/// The cells of a row that lie within the first `cols` columns.
pub open spec fn visible_cells(row: Seq<CellView>, cols: nat) -> Seq<CellView> {
    if cols < row.len() {
        row.take(cols as int)
    } else {
        row
    }
}

/// The lines of the rows, one for one.
pub open spec fn render_rows(rows: Seq<Seq<CellView>>, cols: nat, palette: Seq<u8>) -> Seq<
    LineView,
> {
    Seq::new(rows.len(), |i: int| row_line(visible_cells(rows[i], cols), palette))
}

/// A line without text and without spans.
pub open spec fn is_blank_line(l: LineView) -> bool {
    l.text.len() == 0 && l.spans.len() == 0
}

/// The lines without the blank lines at their end.
pub open spec fn drop_blank_lines_end(lines: Seq<LineView>) -> Seq<LineView>
    decreases lines.len(),
{
    if lines.len() > 0 && is_blank_line(lines.last()) {
        drop_blank_lines_end(lines.drop_last())
    } else {
        lines
    }
}

/// The screen made of lines and a cursor: the blank lines at the end go, and
/// a cursor that stood on one of them moves to the start of the last line that
/// is left, or of line 1 if none is.
pub open spec fn finish(lines: Seq<LineView>, line: nat, col: nat, viewport_top: nat) -> ScreenView {
    let kept = drop_blank_lines_end(lines);
    if line > kept.len() {
        ScreenView {
            lines: kept,
            cursor_line: if kept.len() > 1 {
                kept.len()
            } else {
                1
            },
            cursor_col: 1,
            viewport_top,
        }
    } else {
        ScreenView { lines: kept, cursor_line: line, cursor_col: col, viewport_top }
    }
}

/// The screen that the rows of a terminal and its grid metadata describe. The
/// rows are the scrollback, oldest first, and after it the live view, which is
/// `pd.lines` high. The cursor's line is the row of the live view that the
/// metadata names; the first line of the live view is `viewport_top`.
pub open spec fn screen_of(rows: Seq<Seq<CellView>>, pd: PipeData, palette: Seq<u8>) -> ScreenView
    recommends
        pd.valid(),
        rows.len() >= pd.lines,
{
    let retained = (rows.len() - pd.lines) as nat;
    let at = retained + pd.cursor_y;
    finish(
        render_rows(rows, pd.columns as nat, palette),
        (at + 1) as nat,
        cursor_col(visible_cells(rows[at], pd.columns as nat), pd.cursor_x as int),
        retained + 1,
    )
}

// ---------------------------------------------------------------------------
// What holds of every line
// ---------------------------------------------------------------------------

/// Every span lies within the text: it starts at 1 or later, holds at least
/// one byte, and ends no later than one past the text's last byte.
pub open spec fn spans_in_text(l: LineView) -> bool {
    forall|k: int|
        0 <= k < l.spans.len() ==> 1 <= (#[trigger] l.spans[k]).start < l.spans[k].end
            <= utf8_len(l.text) + 1
}

/// The spans come in the order of their starts and none reaches into the
/// next.
pub open spec fn spans_ordered(spans: Seq<SpanView>) -> bool {
    forall|i: int, j: int|
        0 <= i < j < spans.len() ==> (#[trigger] spans[i]).end <= (#[trigger] spans[j]).start
}

/// Every span starts and ends between two characters of the text.
pub open spec fn spans_on_boundaries(l: LineView) -> bool {
    forall|k: int|
        0 <= k < l.spans.len() ==> is_boundary(l.text, (#[trigger] l.spans[k]).start - 1)
            && is_boundary(l.text, l.spans[k].end - 1)
}

/// Every face has the form of a face.
pub open spec fn faces_formed(spans: Seq<SpanView>) -> bool {
    forall|k: int| 0 <= k < spans.len() ==> is_face((#[trigger] spans[k]).face)
}

/// Two spans of which one starts where the other ends have different faces:
/// cells with the same face that follow each other make one span.
pub open spec fn spans_merged(spans: Seq<SpanView>) -> bool {
    forall|k: int|
        0 <= k && k + 1 < spans.len() && (#[trigger] spans[k]).end == spans[k + 1].start
            ==> spans[k].face != spans[k + 1].face
}

/// All of the above.
pub open spec fn line_ok(l: LineView) -> bool {
    &&& spans_in_text(l)
    &&& spans_ordered(l.spans)
    &&& spans_on_boundaries(l)
    &&& faces_formed(l.spans)
    &&& spans_merged(l.spans)
}

/// An offset between two characters of a text stays one when the text goes
/// on.
pub proof fn lemma_boundary_extend(text: Seq<char>, more: Seq<char>, offset: int)
    requires
        is_boundary(text, offset),
    ensures
        is_boundary(text + more, offset),
{
    let k = choose|k: int| 0 <= k <= text.len() && #[trigger] utf8_len(text.take(k)) == offset;
    assert((text + more).take(k) =~= text.take(k));
}

/// The start and the end of a text lie between characters.
pub proof fn lemma_boundary_end(text: Seq<char>)
    ensures
        is_boundary(text, utf8_len(text) as int),
        is_boundary(text, 0),
{
    assert(text.take(text.len() as int) =~= text);
    assert(utf8_len(text.take(0)) == 0);
}

/// An offset between two characters of a text that lies within a prefix lies
/// between two characters of the prefix.
pub proof fn lemma_boundary_prefix(text: Seq<char>, m: int, offset: int)
    requires
        0 <= m <= text.len(),
        is_boundary(text, offset),
        offset <= utf8_len(text.take(m)),
    ensures
        is_boundary(text.take(m), offset),
{
    let k = choose|k: int| 0 <= k <= text.len() && #[trigger] utf8_len(text.take(k)) == offset;
    if k <= m {
        assert(text.take(m).take(k) =~= text.take(k));
    } else {
        lemma_utf8_len_take(text, m, k);
    }
}

/// The text of a row starts with the text of each of its prefixes.
pub proof fn lemma_row_text_prefix(cells: Seq<CellView>, i: int)
    requires
        0 <= i <= cells.len(),
    ensures
        row_text(cells.take(i)).len() <= row_text(cells).len(),
        row_text(cells).take(row_text(cells.take(i)).len() as int) == row_text(cells.take(i)),
    decreases cells.len(),
{
    if i == cells.len() {
        assert(cells.take(i) =~= cells);
    } else {
        lemma_row_text_prefix(cells.drop_last(), i);
        assert(cells.drop_last().take(i) =~= cells.take(i));
    }
}

/// The cursor's column points between two characters of the row's text.
pub proof fn lemma_cursor_col_boundary(cells: Seq<CellView>, x: int)
    ensures
        is_boundary(row_text(cells), cursor_col(cells, x) - 1),
{
    let text = row_text(cells);
    if 0 <= x < cells.len() && !cells[x].wide_continuation {
        lemma_row_text_prefix(cells, x);
    } else {
        lemma_boundary_end(text);
    }
}

/// What holds of a scan with the text walked so far.
pub open spec fn scan_ok(st: Scan, text: Seq<char>) -> bool {
    &&& line_ok(LineView { text, spans: st.spans })
    &&& match st.open {
        Some((start, face)) => {
            &&& 1 <= start <= utf8_len(text)
            &&& is_boundary(text, start - 1)
            &&& is_face(face)
            &&& forall|k: int| 0 <= k < st.spans.len() ==> (#[trigger] st.spans[k]).end <= start
            &&& st.spans.len() > 0 && st.spans.last().end == start ==> st.spans.last().face
                != face
        },
        None => forall|k: int|
            0 <= k < st.spans.len() ==> (#[trigger] st.spans[k]).end <= utf8_len(text),
    }
}

proof fn lemma_line_ok_extend(text: Seq<char>, more: Seq<char>, spans: Seq<SpanView>)
    requires
        line_ok(LineView { text, spans }),
    ensures
        line_ok(LineView { text: text + more, spans }),
{
    lemma_utf8_len_concat(text, more);
    let l = LineView { text: text + more, spans };
    assert forall|k: int| 0 <= k < spans.len() implies is_boundary(
        l.text,
        (#[trigger] l.spans[k]).start - 1,
    ) && is_boundary(l.text, l.spans[k].end - 1) by {
        lemma_boundary_extend(text, more, spans[k].start - 1);
        lemma_boundary_extend(text, more, spans[k].end - 1);
    }
}

proof fn lemma_close_ok(st: Scan, text: Seq<char>)
    requires
        scan_ok(st, text),
    ensures
        line_ok(LineView { text, spans: close(st, utf8_len(text) + 1) }),
{
    if st.open is Some {
        lemma_boundary_end(text);
    }
}

/// The spans of a scan are in order, lie in the text walked so far and on its
/// character boundaries, and carry well-formed faces.
pub proof fn lemma_scan_ok(cells: Seq<CellView>, palette: Seq<u8>)
    ensures
        scan_ok(scan(cells, palette), row_text(cells)),
    decreases cells.len(),
{
    if cells.len() > 0 {
        let before = cells.drop_last();
        let c = cells.last();
        let prev = scan(before, palette);
        let text0 = row_text(before);
        lemma_scan_ok(before, palette);
        if !c.wide_continuation {
            let g = glyph(c);
            lemma_utf8_len_concat(text0, g);
            let face = face_of(c.attrs, palette);
            if face == open_face(prev) {
                lemma_line_ok_extend(text0, g, prev.spans);
                if let Some((start, f)) = prev.open {
                    lemma_boundary_extend(text0, g, start - 1);
                }
            } else {
                let at = utf8_len(text0) + 1;
                lemma_close_ok(prev, text0);
                lemma_line_ok_extend(text0, g, close(prev, at));
                lemma_face_form(c.attrs, palette);
                lemma_boundary_end(text0);
                lemma_boundary_extend(text0, g, utf8_len(text0) as int);
            }
        }
    }
}

/// The spans of a row before the trim lie well in its text.
pub proof fn lemma_row_spans_ok(cells: Seq<CellView>, palette: Seq<u8>)
    ensures
        line_ok(LineView { text: row_text(cells), spans: row_spans(cells, palette) }),
{
    lemma_scan_ok(cells, palette);
    lemma_close_ok(scan(cells, palette), row_text(cells));
}

/// Spans that all start before `max` are all kept.
pub proof fn lemma_filter_all(spans: Seq<SpanView>, max: nat)
    requires
        forall|k: int| 0 <= k < spans.len() ==> (#[trigger] spans[k]).start < max,
    ensures
        spans.filter(starts_before(max)) == spans,
    decreases spans.len(),
{
    reveal(Seq::filter);
    if spans.len() > 0 {
        let init = spans.drop_last();
        lemma_filter_all(init, max);
    }
}

/// Of spans in order, those that start before `max` are the first ones.
pub proof fn lemma_filter_prefix(spans: Seq<SpanView>, max: nat)
    requires
        spans_ordered(spans),
        forall|k: int| 0 <= k < spans.len() ==> (#[trigger] spans[k]).start < spans[k].end,
    ensures
        spans.filter(starts_before(max)).len() <= spans.len(),
        spans.filter(starts_before(max)) == spans.take(
            spans.filter(starts_before(max)).len() as int,
        ),
    decreases spans.len(),
{
    reveal(Seq::filter);
    if spans.len() > 0 {
        let init = spans.drop_last();
        if spans.last().start < max {
            lemma_filter_all(spans, max);
        } else {
            lemma_filter_prefix(init, max);
        }
    }
}

/// Clipping keeps spans well in the text that is left.
pub proof fn lemma_clip_ok(text: Seq<char>, m: int, spans: Seq<SpanView>)
    requires
        0 <= m <= text.len(),
        line_ok(LineView { text, spans }),
    ensures
        line_ok(
            LineView { text: text.take(m), spans: clip_spans(spans, utf8_len(text.take(m)) + 1) },
        ),
{
    let short = text.take(m);
    let max = utf8_len(short) + 1;
    lemma_filter_prefix(spans, max);
    let out = clip_spans(spans, max);
    let l = LineView { text: short, spans: out };
    lemma_boundary_end(short);
    assert forall|k: int| 0 <= k < l.spans.len() implies is_boundary(
        l.text,
        (#[trigger] l.spans[k]).start - 1,
    ) && is_boundary(l.text, l.spans[k].end - 1) by {
        lemma_boundary_prefix(text, m, out[k].start - 1);
        if out[k].end == spans[k].end {
            lemma_boundary_prefix(text, m, out[k].end - 1);
        }
    }
}

/// The line of a row is well formed.
pub proof fn lemma_row_line_ok(cells: Seq<CellView>, palette: Seq<u8>)
    ensures
        line_ok(row_line(cells, palette)),
{
    let text = row_text(cells);
    lemma_row_spans_ok(cells, palette);
    lemma_drop_blanks_end_prefix(text);
    lemma_clip_ok(text, drop_blanks_end(text).len() as int, row_spans(cells, palette));
}

/// The bytes of a well-formed line are well-formed UTF-8, and every span of
/// the line starts and ends at a character boundary of them.
pub proof fn lemma_spans_char_boundaries(l: LineView)
    requires
        line_ok(l),
    ensures
        valid_utf8(encode_utf8(l.text)),
        forall|k: int|
            0 <= k < l.spans.len() ==> is_char_boundary(
                encode_utf8(l.text),
                (#[trigger] l.spans[k]).start - 1,
            ) && is_char_boundary(encode_utf8(l.text), l.spans[k].end - 1),
{
    encode_utf8_valid_utf8(l.text);
    assert forall|k: int| 0 <= k < l.spans.len() implies is_char_boundary(
        encode_utf8(l.text),
        (#[trigger] l.spans[k]).start - 1,
    ) && is_char_boundary(encode_utf8(l.text), l.spans[k].end - 1) by {
        lemma_boundary_is_char_boundary(l.text, l.spans[k].start - 1);
        lemma_boundary_is_char_boundary(l.text, l.spans[k].end - 1);
    }
}

// ---------------------------------------------------------------------------
// What holds of every screen
// ---------------------------------------------------------------------------

/// Every line of the screen is well formed.
pub open spec fn lines_ok(lines: Seq<LineView>) -> bool {
    forall|i: int| 0 <= i < lines.len() ==> line_ok(#[trigger] lines[i])
}

/// The cursor stands on a line of the buffer, or on line 1 of an empty one,
/// and its column is 1 or more.
pub open spec fn cursor_in_buffer(s: ScreenView) -> bool {
    &&& 1 <= s.cursor_line
    &&& s.cursor_line <= s.lines.len() || s.cursor_line == 1
    &&& 1 <= s.cursor_col
}

/// The last line, if there is one, has text or a span.
pub open spec fn no_trailing_blank_line(lines: Seq<LineView>) -> bool {
    lines.len() > 0 ==> !is_blank_line(lines.last())
}

/// The cursor's column is no further than one past the text of its line,
/// and is 1 in a buffer without lines.
pub open spec fn cursor_in_text(s: ScreenView) -> bool {
    if s.lines.len() > 0 {
        s.cursor_col <= utf8_len(s.lines[s.cursor_line - 1].text) + 1
    } else {
        s.cursor_col == 1
    }
}

/// A text without a line feed.
pub open spec fn on_one_line(text: Seq<char>) -> bool {
    forall|k: int| 0 <= k < text.len() ==> #[trigger] text[k] != '\n'
}

/// No text of the lines holds a line feed: each is one line of the buffer.
pub open spec fn lines_on_one_line(lines: Seq<LineView>) -> bool {
    forall|i: int| 0 <= i < lines.len() ==> on_one_line((#[trigger] lines[i]).text)
}

/// No cell of the row holds a line feed.
pub open spec fn cells_on_one_line(cells: Seq<CellView>) -> bool {
    forall|j: int, k: int|
        0 <= j < cells.len() && 0 <= k < cells[j].contents.len() ==> #[trigger] cells[j].contents[k]
            != '\n'
}

/// What holds of every reconstructed screen.
pub open spec fn screen_ok(s: ScreenView) -> bool {
    &&& lines_ok(s.lines)
    &&& cursor_in_buffer(s)
    &&& no_trailing_blank_line(s.lines)
}

/// Dropping the blank lines at the end leaves the first lines as they are,
/// and no blank line at their end.
pub proof fn lemma_drop_blank_lines_end(lines: Seq<LineView>)
    ensures
        drop_blank_lines_end(lines).len() <= lines.len(),
        drop_blank_lines_end(lines) == lines.take(drop_blank_lines_end(lines).len() as int),
        no_trailing_blank_line(drop_blank_lines_end(lines)),
    decreases lines.len(),
{
    if lines.len() > 0 && is_blank_line(lines.last()) {
        lemma_drop_blank_lines_end(lines.drop_last());
    }
}

/// A screen made of well-formed lines is well formed.
pub proof fn lemma_finish_ok(lines: Seq<LineView>, line: nat, col: nat, viewport_top: nat)
    requires
        lines_ok(lines),
        line >= 1,
        col >= 1,
    ensures
        screen_ok(finish(lines, line, col, viewport_top)),
{
    lemma_drop_blank_lines_end(lines);
}

/// Every screen that `screen_of` describes is well formed: its spans lie
/// within their lines, in order, on character boundaries and with faces of the
/// fixed form; its cursor stands in the buffer; its last line is not blank.
pub proof fn lemma_screen_of_ok(rows: Seq<Seq<CellView>>, pd: PipeData, palette: Seq<u8>)
    requires
        pd.valid(),
        rows.len() >= pd.lines,
    ensures
        screen_ok(screen_of(rows, pd, palette)),
{
    let lines = render_rows(rows, pd.columns as nat, palette);
    assert forall|i: int| 0 <= i < lines.len() implies line_ok(#[trigger] lines[i]) by {
        lemma_row_line_ok(visible_cells(rows[i], pd.columns as nat), palette);
    }
    let retained = (rows.len() - pd.lines) as nat;
    let at = retained + pd.cursor_y;
    lemma_finish_ok(
        lines,
        (at + 1) as nat,
        cursor_col(visible_cells(rows[at], pd.columns as nat), pd.cursor_x as int),
        retained + 1,
    );
}

/// The row of the terminal that the cursor stands on, as far as the grid is
/// wide.
pub open spec fn cursor_row(rows: Seq<Seq<CellView>>, pd: PipeData) -> Seq<CellView>
    recommends
        pd.valid(),
        rows.len() >= pd.lines,
{
    visible_cells(rows[rows.len() - pd.lines + pd.cursor_y], pd.columns as nat)
}

/// Whether the cursor's line was dropped as a blank line at the end, or the
/// cell under the cursor starts within the text that is left of its row: at a
/// character of it or right after its last one. Neither holds where the cursor
/// stands among the trailing blanks of a line that stays, beyond the first of
/// them.
pub open spec fn cursor_cell_in_text(rows: Seq<Seq<CellView>>, pd: PipeData, palette: Seq<u8>) -> bool
    recommends
        pd.valid(),
        rows.len() >= pd.lines,
{
    let row = cursor_row(rows, pd);
    let kept = drop_blank_lines_end(render_rows(rows, pd.columns as nat, palette));
    ||| rows.len() - pd.lines + pd.cursor_y >= kept.len()
    ||| cursor_col(row, pd.cursor_x as int) <= utf8_len(drop_blanks_end(row_text(row))) + 1
}

/// The cursor's column is no further than one past the text of the cursor's
/// line, and is 1 in a buffer without lines, on the screens for which
/// `cursor_cell_in_text` holds, and on no others.
pub proof fn lemma_cursor_in_text(rows: Seq<Seq<CellView>>, pd: PipeData, palette: Seq<u8>)
    requires
        pd.valid(),
        rows.len() >= pd.lines,
    ensures
        cursor_in_text(screen_of(rows, pd, palette)) == cursor_cell_in_text(rows, pd, palette),
{
    let lines = render_rows(rows, pd.columns as nat, palette);
    lemma_drop_blank_lines_end(lines);
    let s = screen_of(rows, pd, palette);
    let at = rows.len() - pd.lines + pd.cursor_y;
    if at < s.lines.len() {
        assert(s.lines[at] == lines[at]);
    }
}

/// The text of a row of cells without a line feed is one line.
pub proof fn lemma_row_text_on_one_line(cells: Seq<CellView>)
    requires
        cells_on_one_line(cells),
    ensures
        on_one_line(row_text(cells)),
        on_one_line(drop_blanks_end(row_text(cells))),
    decreases cells.len(),
{
    if cells.len() > 0 {
        let before = cells.drop_last();
        assert forall|j: int, k: int|
            0 <= j < before.len() && 0 <= k < before[j].contents.len() implies #[trigger] before[j].contents[k]
            != '\n' by {
            assert(before[j] == cells[j]);
        }
        lemma_row_text_on_one_line(before);
        let c = cells.last();
        assert(c == cells[cells.len() - 1]);
        let text = row_text(cells);
        assert forall|k: int| 0 <= k < text.len() implies #[trigger] text[k] != '\n' by {
            if !c.wide_continuation && k >= row_text(before).len() {
                let g = glyph(c);
                assert(text[k] == g[k - row_text(before).len()]);
                if c.contents.len() > 0 {
                    assert(g[k - row_text(before).len()] == cells[cells.len() - 1].contents[k
                        - row_text(before).len()]);
                }
            }
        }
    }
    lemma_drop_blanks_end_prefix(row_text(cells));
}

/// The lines of a screen hold no line feed where the cells of the terminal
/// hold none.
pub proof fn lemma_screen_on_one_line(rows: Seq<Seq<CellView>>, pd: PipeData, palette: Seq<u8>)
    requires
        pd.valid(),
        rows.len() >= pd.lines,
        forall|i: int| 0 <= i < rows.len() ==> cells_on_one_line(#[trigger] rows[i]),
    ensures
        lines_on_one_line(screen_of(rows, pd, palette).lines),
{
    let all = render_rows(rows, pd.columns as nat, palette);
    let lines = screen_of(rows, pd, palette).lines;
    lemma_drop_blank_lines_end(all);
    assert forall|i: int| 0 <= i < lines.len() implies on_one_line((#[trigger] lines[i]).text) by {
        assert(lines[i] == all[i]);
        let row = visible_cells(rows[i], pd.columns as nat);
        assert(cells_on_one_line(rows[i]));
        assert forall|j: int, k: int|
            0 <= j < row.len() && 0 <= k < row[j].contents.len() implies #[trigger] row[j].contents[k]
            != '\n' by {
            assert(row[j] == rows[i][j]);
        }
        lemma_row_text_on_one_line(row);
    }
}

} // verus!
