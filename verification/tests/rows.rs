use kakoune_scrollback::emulator::{Cell, CellAttrs};
use kakoune_scrollback::face::cell_face;
use kakoune_scrollback::kitty::PipeData;
use kakoune_scrollback::palette::{Color, DEFAULT_PALETTE};
use kakoune_scrollback::terminal::{
    finish_screen, process_row, push_row, CursorPosition, ProcessedLine, Span,
};

fn plain() -> CellAttrs {
    CellAttrs {
        fg: Color::Default,
        bg: Color::Default,
        bold: false,
        dim: false,
        italic: false,
        underline: false,
        inverse: false,
    }
}

fn red() -> CellAttrs {
    CellAttrs {
        fg: Color::Indexed { idx: 1 },
        ..plain()
    }
}

fn cell(contents: &str, attrs: CellAttrs) -> Cell {
    Cell {
        contents: contents.to_string(),
        wide_continuation: false,
        attrs,
    }
}

fn continuation(attrs: CellAttrs) -> Cell {
    Cell {
        contents: String::new(),
        wide_continuation: true,
        attrs,
    }
}

fn grid(cursor_x: usize, cursor_y: usize) -> PipeData {
    PipeData {
        cursor_x,
        cursor_y,
        lines: 3,
        columns: 10,
    }
}

fn span(start_byte: usize, end_byte: usize, face: &str) -> Span {
    Span {
        start_byte,
        end_byte,
        face: face.to_string(),
    }
}

#[test]
fn row_of_plain_cells_has_text_and_no_span() {
    let cells = vec![cell("a", plain()), cell("", plain()), cell("b", plain())];
    let mut cursor = CursorPosition { line: 1, col: 1 };
    let line = process_row(&cells, &grid(0, 0), false, &mut cursor, &DEFAULT_PALETTE);
    assert_eq!(line.text, "a b");
    assert!(line.spans.is_empty());
    assert_eq!(cursor, CursorPosition { line: 1, col: 1 });
}

#[test]
fn row_without_cells_is_blank() {
    let cells: Vec<Cell> = Vec::new();
    let mut cursor = CursorPosition { line: 7, col: 9 };
    let line = process_row(&cells, &grid(0, 0), true, &mut cursor, &DEFAULT_PALETTE);
    assert_eq!(line.text, "");
    assert!(line.spans.is_empty());
    assert_eq!(cursor, CursorPosition { line: 7, col: 9 });
}

#[test]
fn cells_with_one_face_make_one_span() {
    let cells = vec![cell("R", red()), cell("e", red()), cell("d", red()), cell("", plain())];
    let mut cursor = CursorPosition { line: 1, col: 1 };
    let line = process_row(&cells, &grid(0, 0), false, &mut cursor, &DEFAULT_PALETTE);
    assert_eq!(line.text, "Red");
    assert_eq!(line.spans, vec![span(1, 4, "rgb:CC0000,default")]);
}

#[test]
fn spans_with_a_gap_between_them() {
    let blue = CellAttrs {
        fg: Color::Indexed { idx: 4 },
        ..plain()
    };
    let cells = vec![
        cell("R", red()),
        cell("", plain()),
        cell("N", plain()),
        cell("", plain()),
        cell("B", blue),
    ];
    let mut cursor = CursorPosition { line: 1, col: 1 };
    let line = process_row(&cells, &grid(0, 0), false, &mut cursor, &DEFAULT_PALETTE);
    assert_eq!(line.text, "R N B");
    assert_eq!(
        line.spans,
        vec![
            span(1, 2, "rgb:CC0000,default"),
            span(5, 6, "rgb:0000CC,default"),
        ]
    );
}

#[test]
fn styled_blanks_inside_a_line_stay() {
    let cells = vec![cell("a", plain()), cell("", red()), cell("", red()), cell("b", plain())];
    let mut cursor = CursorPosition { line: 1, col: 1 };
    let line = process_row(&cells, &grid(0, 0), false, &mut cursor, &DEFAULT_PALETTE);
    assert_eq!(line.text, "a  b");
    assert_eq!(line.spans, vec![span(2, 4, "rgb:CC0000,default")]);
}

#[test]
fn styled_blanks_at_the_end_go() {
    let cells = vec![cell("H", red()), cell("i", red()), cell(" ", red()), cell("", red())];
    let mut cursor = CursorPosition { line: 1, col: 1 };
    let line = process_row(&cells, &grid(0, 0), false, &mut cursor, &DEFAULT_PALETTE);
    assert_eq!(line.text, "Hi");
    assert_eq!(line.spans, vec![span(1, 3, "rgb:CC0000,default")]);
}

#[test]
fn span_of_blanks_alone_is_dropped() {
    let cells = vec![cell("a", plain()), cell("", red()), cell("", red())];
    let mut cursor = CursorPosition { line: 1, col: 1 };
    let line = process_row(&cells, &grid(0, 0), false, &mut cursor, &DEFAULT_PALETTE);
    assert_eq!(line.text, "a");
    assert!(line.spans.is_empty());
}

#[test]
fn only_ascii_whitespace_is_trimmed() {
    let cells = vec![cell("a", plain()), cell("\u{3000}", plain()), continuation(plain())];
    let mut cursor = CursorPosition { line: 1, col: 1 };
    let line = process_row(&cells, &grid(0, 0), false, &mut cursor, &DEFAULT_PALETTE);
    assert_eq!(line.text, "a\u{3000}");
}

#[test]
fn wide_glyph_counts_its_bytes_once() {
    let cells = vec![
        cell("日", red()),
        continuation(red()),
        cell("本", plain()),
        continuation(plain()),
        cell("t", plain()),
    ];
    let mut cursor = CursorPosition { line: 1, col: 1 };
    let line = process_row(&cells, &grid(4, 0), true, &mut cursor, &DEFAULT_PALETTE);
    assert_eq!(line.text, "日本t");
    assert_eq!(line.spans, vec![span(1, 4, "rgb:CC0000,default")]);
    assert_eq!(cursor.col, 7);
}

#[test]
fn cursor_on_the_second_column_of_a_wide_glyph_stays() {
    let cells = vec![cell("日", plain()), continuation(plain()), cell("t", plain())];
    let mut cursor = CursorPosition { line: 1, col: 1 };
    process_row(&cells, &grid(1, 0), true, &mut cursor, &DEFAULT_PALETTE);
    assert_eq!(cursor.col, 1);
}

#[test]
fn cursor_among_the_trailing_blanks_keeps_its_column() {
    let mut cells = vec![cell("H", plain()), cell("i", plain())];
    for _ in 0..8 {
        cells.push(cell("", plain()));
    }
    let mut cursor = CursorPosition { line: 1, col: 1 };
    let line = process_row(&cells, &grid(6, 0), true, &mut cursor, &DEFAULT_PALETTE);
    assert_eq!(line.text, "Hi");
    assert_eq!(cursor.col, 7);
}

#[test]
fn cursor_is_not_moved_on_another_line() {
    let cells = vec![cell("a", plain()), cell("b", plain())];
    let mut cursor = CursorPosition { line: 4, col: 5 };
    process_row(&cells, &grid(1, 0), false, &mut cursor, &DEFAULT_PALETTE);
    assert_eq!(cursor, CursorPosition { line: 4, col: 5 });
}

#[test]
fn push_row_places_the_cursor_on_its_line() {
    let pd = grid(1, 1);
    let mut lines = Vec::new();
    let mut cursor = CursorPosition { line: 1, col: 1 };
    let rows = [
        vec![cell("o", plain()), cell("l", plain()), cell("d", plain())],
        vec![cell("t", plain()), cell("o", plain()), cell("p", plain())],
        vec![cell("é", plain()), cell("x", plain())],
    ];
    for cells in &rows {
        push_row(cells, &pd, 1, &mut lines, &mut cursor, &DEFAULT_PALETTE);
    }
    assert_eq!(lines.len(), 3);
    assert_eq!(lines[2].text, "éx");
    assert_eq!(cursor, CursorPosition { line: 3, col: 3 });
}

#[test]
fn finish_screen_drops_blank_lines_at_the_end() {
    let line = |text: &str| ProcessedLine {
        text: text.to_string(),
        spans: Vec::new(),
    };
    let lines = vec![line("a"), line(""), line("b"), line(""), line("")];
    let screen = finish_screen(lines, CursorPosition { line: 2, col: 1 }, 1);
    assert_eq!(screen.lines.len(), 3);
    assert_eq!(screen.lines[1].text, "");
    assert_eq!(screen.cursor, CursorPosition { line: 2, col: 1 });
    assert_eq!(screen.viewport_top, 1);
}

#[test]
fn finish_screen_moves_a_cursor_beyond_the_last_line() {
    let line = |text: &str| ProcessedLine {
        text: text.to_string(),
        spans: Vec::new(),
    };
    let lines = vec![line("a"), line("b"), line(""), line("")];
    let screen = finish_screen(lines, CursorPosition { line: 4, col: 6 }, 3);
    assert_eq!(screen.lines.len(), 2);
    assert_eq!(screen.cursor, CursorPosition { line: 2, col: 1 });
    assert_eq!(screen.viewport_top, 3);
}

#[test]
fn finish_screen_of_blank_lines_has_the_cursor_on_line_one() {
    let line = || ProcessedLine {
        text: String::new(),
        spans: Vec::new(),
    };
    let screen = finish_screen(vec![line(), line()], CursorPosition { line: 2, col: 3 }, 1);
    assert!(screen.lines.is_empty());
    assert_eq!(screen.cursor, CursorPosition { line: 1, col: 1 });
}

#[test]
fn face_of_a_plain_cell_is_none() {
    assert_eq!(cell_face(&cell("a", plain()), &DEFAULT_PALETTE), None);
}

#[test]
fn face_names_colours_and_attributes_in_order() {
    let attrs = CellAttrs {
        fg: Color::Rgb { r: 1, g: 0xAB, b: 0xFF },
        bg: Color::Indexed { idx: 232 },
        bold: true,
        dim: true,
        italic: true,
        underline: true,
        inverse: true,
    };
    assert_eq!(
        cell_face(&cell("a", attrs), &DEFAULT_PALETTE),
        Some("rgb:01ABFF,rgb:080808+bdiur".to_string())
    );
}

#[test]
fn face_with_an_attribute_alone_has_default_colours() {
    let attrs = CellAttrs {
        underline: true,
        ..plain()
    };
    assert_eq!(
        cell_face(&cell("a", attrs), &DEFAULT_PALETTE),
        Some("default,default+u".to_string())
    );
}

#[test]
fn face_with_a_background_alone() {
    let attrs = CellAttrs {
        bg: Color::Indexed { idx: 2 },
        ..plain()
    };
    assert_eq!(
        cell_face(&cell("a", attrs), &DEFAULT_PALETTE),
        Some("default,rgb:00CC00".to_string())
    );
}
