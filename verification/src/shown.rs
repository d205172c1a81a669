//! What the spans of a line say of its cells: a cell that has a face lies in
//! a span with that face, and a cell that has none lies in no span.

use vstd::prelude::*;
use crate::emulator::CellView;
use crate::face::face_of;
use crate::kitty::PipeData;
use crate::model::{
    clip_spans,
    glyph,
    lemma_drop_blank_lines_end,
    lemma_filter_all,
    lemma_row_spans_ok,
    lemma_row_text_prefix,
    lemma_scan_ok,
    open_face,
    render_rows,
    row_line,
    row_spans,
    row_text,
    scan,
    screen_of,
    spans_ordered,
    starts_before,
    visible_cells,
    Scan,
    SpanView,
};
use crate::text::{lemma_utf8_len_concat, lemma_utf8_len_take, utf8_len};

verus! {

/// The offset of the first byte of the cell of column `j`, counted from one.
pub open spec fn cell_start(cells: Seq<CellView>, j: int) -> nat {
    utf8_len(row_text(cells.take(j))) + 1
}

/// The offset after the last byte of the cell of column `j`.
pub open spec fn cell_end(cells: Seq<CellView>, j: int) -> nat {
    utf8_len(row_text(cells.take(j + 1))) + 1
}

/// A span with the face holds all bytes from `start` up to `end`.
pub open spec fn covers(spans: Seq<SpanView>, start: nat, end: nat, face: Seq<char>) -> bool {
    exists|k: int|
        0 <= k < spans.len() && (#[trigger] spans[k]).start <= start && end <= spans[k].end
            && spans[k].face == face
}

/// No span holds a byte from `start` up to `end`.
pub open spec fn misses(spans: Seq<SpanView>, start: nat, end: nat) -> bool {
    forall|k: int|
        0 <= k < spans.len() ==> (#[trigger] spans[k]).end <= start || end <= spans[k].start
}

/// The spans show the bytes from `start` up to `end` with the face, or not at
/// all if there is none.
pub open spec fn shows(spans: Seq<SpanView>, start: nat, end: nat, face: Option<Seq<char>>) -> bool {
    match face {
        Some(f) => covers(spans, start, end, f),
        None => misses(spans, start, end),
    }
}

/// The spans show every cell that ends before `max` as its style asks. The
/// second column of a wide glyph has no bytes and is not asked about.
pub open spec fn cells_shown(
    cells: Seq<CellView>,
    palette: Seq<u8>,
    spans: Seq<SpanView>,
    max: nat,
) -> bool {
    forall|j: int|
        0 <= j < cells.len() && !(#[trigger] cells[j]).wide_continuation && cell_end(cells, j)
            <= max ==> shows(
            spans,
            cell_start(cells, j),
            cell_end(cells, j),
            face_of(cells[j].attrs, palette),
        )
}

/// What a scan says of the cell of column `j`: with a face, the cell lies in
/// a complete span with that face or behind the start of the open span, which
/// has that face; without one, it lies in no complete span and before the open
/// one.
pub open spec fn scan_shows_cell(cells: Seq<CellView>, palette: Seq<u8>, st: Scan, j: int) -> bool {
    match face_of(cells[j].attrs, palette) {
        Some(f) => covers(st.spans, cell_start(cells, j), cell_end(cells, j), f) || (st.open
            matches Some((s, g)) && g == f && s <= cell_start(cells, j)),
        None => misses(st.spans, cell_start(cells, j), cell_end(cells, j)) && (st.open
            matches Some((s, g)) ==> cell_end(cells, j) <= s),
    }
}

/// What a scan says of the cells walked so far.
pub open spec fn scan_shows(cells: Seq<CellView>, palette: Seq<u8>, st: Scan) -> bool {
    forall|j: int|
        0 <= j < cells.len() && !(#[trigger] cells[j]).wide_continuation ==> scan_shows_cell(
            cells,
            palette,
            st,
            j,
        )
}

/// The bytes of a cell lie in the text of its row, one after the other.
pub proof fn lemma_cell_bounds(cells: Seq<CellView>, j: int)
    requires
        0 <= j < cells.len(),
    ensures
        1 <= cell_start(cells, j) <= cell_end(cells, j) <= utf8_len(row_text(cells)) + 1,
        !cells[j].wide_continuation ==> cell_start(cells, j) < cell_end(cells, j),
{
    let upto = cells.take(j + 1);
    assert(upto.drop_last() =~= cells.take(j));
    if !cells[j].wide_continuation {
        lemma_utf8_len_concat(row_text(cells.take(j)), glyph(cells[j]));
    }
    lemma_row_text_prefix(cells, j + 1);
    let text = row_text(cells);
    let n = row_text(upto).len() as int;
    lemma_utf8_len_take(text, n, text.len() as int);
    assert(text.take(text.len() as int) =~= text);
}

/// The bytes of a cell do not move when cells follow it.
proof fn lemma_cell_fixed(cells: Seq<CellView>, j: int)
    requires
        0 <= j < cells.len() - 1,
    ensures
        cell_start(cells, j) == cell_start(cells.drop_last(), j),
        cell_end(cells, j) == cell_end(cells.drop_last(), j),
{
    assert(cells.drop_last().take(j) =~= cells.take(j));
    assert(cells.drop_last().take(j + 1) =~= cells.take(j + 1));
}

proof fn lemma_covers_push(spans: Seq<SpanView>, more: SpanView, start: nat, end: nat, f: Seq<char>)
    requires
        covers(spans, start, end, f),
    ensures
        covers(spans.push(more), start, end, f),
{
    let k = choose|k: int|
        0 <= k < spans.len() && (#[trigger] spans[k]).start <= start && end <= spans[k].end
            && spans[k].face == f;
    assert(spans.push(more)[k] == spans[k]);
}

/// A cell that was shown stays shown when a cell follows that changes the
/// open span.
proof fn lemma_shown_after_change(cells: Seq<CellView>, palette: Seq<u8>, j: int)
    requires
        0 <= j < cells.len() - 1,
        !cells[j].wide_continuation,
        !cells.last().wide_continuation,
        face_of(cells.last().attrs, palette) != open_face(scan(cells.drop_last(), palette)),
        scan_shows_cell(cells.drop_last(), palette, scan(cells.drop_last(), palette), j),
    ensures
        scan_shows_cell(cells, palette, scan(cells, palette), j),
{
    let before = cells.drop_last();
    let prev = scan(before, palette);
    let st = scan(cells, palette);
    let at = (utf8_len(row_text(before)) + 1) as nat;
    let start = cell_start(cells, j);
    let end = cell_end(cells, j);
    lemma_cell_fixed(cells, j);
    lemma_cell_bounds(before, j);
    match face_of(cells[j].attrs, palette) {
        Some(f) => {
            if covers(prev.spans, start, end, f) {
                if let Some((s, g)) = prev.open {
                    lemma_covers_push(
                        prev.spans,
                        SpanView { start: s, end: at, face: g },
                        start,
                        end,
                        f,
                    );
                }
            } else {
                let last = prev.spans.len() as int;
                assert(st.spans[last].start <= start && end <= st.spans[last].end
                    && st.spans[last].face == f);
            }
        },
        None => {},
    }
}

/// The last cell is shown by the scan that has walked it.
proof fn lemma_last_shown(cells: Seq<CellView>, palette: Seq<u8>)
    requires
        cells.len() > 0,
        !cells.last().wide_continuation,
    ensures
        scan_shows_cell(cells, palette, scan(cells, palette), cells.len() - 1),
{
    let before = cells.drop_last();
    lemma_scan_ok(before, palette);
}

/// A scan shows each cell it has walked.
proof fn lemma_scan_shows_cell(cells: Seq<CellView>, palette: Seq<u8>, j: int)
    requires
        0 <= j < cells.len(),
        !cells[j].wide_continuation,
    ensures
        scan_shows_cell(cells, palette, scan(cells, palette), j),
    decreases cells.len(),
{
    let before = cells.drop_last();
    if j == cells.len() - 1 {
        lemma_last_shown(cells, palette);
    } else {
        lemma_scan_shows_cell(before, palette, j);
        lemma_cell_fixed(cells, j);
        if !cells.last().wide_continuation && face_of(cells.last().attrs, palette) != open_face(
            scan(before, palette),
        ) {
            lemma_shown_after_change(cells, palette, j);
        }
    }
}

/// A scan shows the cells it has walked.
pub proof fn lemma_scan_shows(cells: Seq<CellView>, palette: Seq<u8>)
    ensures
        scan_shows(cells, palette, scan(cells, palette)),
{
    assert forall|j: int|
        0 <= j < cells.len() && !(#[trigger] cells[j]).wide_continuation implies scan_shows_cell(
        cells,
        palette,
        scan(cells, palette),
        j,
    ) by {
        lemma_scan_shows_cell(cells, palette, j);
    }
}

/// The spans of a row before the trim show every cell of the row.
pub proof fn lemma_row_spans_show(cells: Seq<CellView>, palette: Seq<u8>)
    ensures
        cells_shown(cells, palette, row_spans(cells, palette), utf8_len(row_text(cells)) + 1),
{
    let st = scan(cells, palette);
    let spans = row_spans(cells, palette);
    let end_of_text = utf8_len(row_text(cells)) + 1;
    lemma_scan_shows(cells, palette);
    assert forall|j: int|
        0 <= j < cells.len() && !(#[trigger] cells[j]).wide_continuation && cell_end(cells, j)
            <= end_of_text implies shows(
        spans,
        cell_start(cells, j),
        cell_end(cells, j),
        face_of(cells[j].attrs, palette),
    ) by {
        let start = cell_start(cells, j);
        let end = cell_end(cells, j);
        match face_of(cells[j].attrs, palette) {
            Some(f) => {
                if covers(st.spans, start, end, f) {
                    if let Some((s, g)) = st.open {
                        lemma_covers_push(
                            st.spans,
                            SpanView { start: s, end: end_of_text as nat, face: g },
                            start,
                            end,
                            f,
                        );
                    }
                } else {
                    let last = st.spans.len() as int;
                    assert(spans[last].start <= start && end <= spans[last].end && spans[last].face
                        == f);
                }
            },
            None => {},
        }
    }
}

/// What clipping does to spans in order: the first of them stay, each with
/// its start and face, and end at `max` at the latest; the others, which start
/// at `max` or later, go.
pub proof fn lemma_clip_spans(spans: Seq<SpanView>, max: nat)
    requires
        spans_ordered(spans),
        forall|k: int| 0 <= k < spans.len() ==> (#[trigger] spans[k]).start < spans[k].end,
    ensures
        clip_spans(spans, max).len() <= spans.len(),
        forall|k: int|
            0 <= k < clip_spans(spans, max).len() ==> {
                &&& (#[trigger] clip_spans(spans, max)[k]).start == spans[k].start
                &&& clip_spans(spans, max)[k].face == spans[k].face
                &&& clip_spans(spans, max)[k].start < max
                &&& clip_spans(spans, max)[k].end == if spans[k].end <= max {
                    spans[k].end
                } else {
                    max
                }
            },
        forall|k: int|
            clip_spans(spans, max).len() <= k < spans.len() ==> (#[trigger] spans[k]).start >= max,
    decreases spans.len(),
{
    reveal(Seq::filter);
    let pred = starts_before(max);
    if spans.len() > 0 {
        let init = spans.drop_last();
        let last = spans.last();
        if pred(last) {
            lemma_filter_all(spans, max);
        } else {
            lemma_clip_spans(init, max);
            let out = clip_spans(spans, max);
            assert forall|k: int| out.len() <= k < spans.len() implies (#[trigger] spans[k]).start
                >= max by {
                if k < init.len() {
                    assert(init[k] == spans[k]);
                }
            }
        }
    }
}

/// The spans of a line show every cell of its row that lies in the text that
/// is left: a cell with a face lies in a span with that face, a cell without
/// one in no span.
pub proof fn lemma_row_line_shows(cells: Seq<CellView>, palette: Seq<u8>)
    ensures
        cells_shown(
            cells,
            palette,
            row_line(cells, palette).spans,
            utf8_len(row_line(cells, palette).text) + 1,
        ),
{
    let all = row_spans(cells, palette);
    let line = row_line(cells, palette);
    let max = utf8_len(line.text) + 1;
    lemma_row_spans_show(cells, palette);
    lemma_row_spans_ok(cells, palette);
    lemma_clip_spans(all, max as nat);
    assert forall|j: int|
        0 <= j < cells.len() && !(#[trigger] cells[j]).wide_continuation && cell_end(cells, j)
            <= max implies shows(
        line.spans,
        cell_start(cells, j),
        cell_end(cells, j),
        face_of(cells[j].attrs, palette),
    ) by {
        let start = cell_start(cells, j);
        let end = cell_end(cells, j);
        lemma_cell_bounds(cells, j);
        match face_of(cells[j].attrs, palette) {
            Some(f) => {
                let k = choose|k: int|
                    0 <= k < all.len() && (#[trigger] all[k]).start <= start && end <= all[k].end
                        && all[k].face == f;
                assert(line.spans[k].start <= start && end <= line.spans[k].end
                    && line.spans[k].face == f);
            },
            None => {},
        }
    }
}

/// Every line of a screen shows the cells of its row: the row of the
/// terminal with the line's number, as far as the grid is wide.
pub proof fn lemma_screen_shows(rows: Seq<Seq<CellView>>, pd: PipeData, palette: Seq<u8>)
    requires
        pd.valid(),
        rows.len() >= pd.lines,
    ensures
        screen_of(rows, pd, palette).lines.len() <= rows.len(),
        forall|i: int|
            0 <= i < screen_of(rows, pd, palette).lines.len() ==> cells_shown(
                visible_cells(rows[i], pd.columns as nat),
                palette,
                (#[trigger] screen_of(rows, pd, palette).lines[i]).spans,
                utf8_len(screen_of(rows, pd, palette).lines[i].text) + 1,
            ),
{
    let all = render_rows(rows, pd.columns as nat, palette);
    let lines = screen_of(rows, pd, palette).lines;
    lemma_drop_blank_lines_end(all);
    assert forall|i: int| 0 <= i < lines.len() implies cells_shown(
        visible_cells(rows[i], pd.columns as nat),
        palette,
        (#[trigger] lines[i]).spans,
        utf8_len(lines[i].text) + 1,
    ) by {
        lemma_row_line_shows(visible_cells(rows[i], pd.columns as nat), palette);
    }
}

} // verus!
