use kakoune_scrollback::cli::TargetId;
use kakoune_scrollback::kitty::{parse_window_id, PipeData};
use kakoune_scrollback::output::{
    escape_face, escape_kak_single_quote, escape_shell_single_quote, render_init_kak,
    render_ranges, render_text,
};
use kakoune_scrollback::palette::DEFAULT_PALETTE;
use kakoune_scrollback::terminal::{
    process_bytes, CursorPosition, ProcessedLine, ProcessedScreen, Span,
    DEFAULT_MAX_SCROLLBACK_LINES,
};


fn wid(s: &str) -> TargetId {
    TargetId::Kitty(parse_window_id(s).unwrap())
}

fn make_screen(lines: Vec<ProcessedLine>, cursor: CursorPosition) -> ProcessedScreen {
    ProcessedScreen {
        lines,
        cursor,
        viewport_top: 1,
    }
}

#[test]
fn write_text_basic() {
    let screen = make_screen(
        vec![
            ProcessedLine {
                text: "Hello".to_string(),
                spans: vec![],
            },
            ProcessedLine {
                text: "World".to_string(),
                spans: vec![],
            },
        ],
        CursorPosition { line: 1, col: 1 },
    );
    let content = render_text(&screen);
    assert_eq!(content, "Hello\nWorld\n");
}

#[test]
fn write_ranges_basic() {
    let screen = make_screen(
        vec![ProcessedLine {
            text: "Hello World".to_string(),
            spans: vec![Span {
                start_byte: 1,
                end_byte: 6,
                face: "rgb:FF0000,default+b".to_string(),
            }],
        }],
        CursorPosition { line: 1, col: 1 },
    );
    let content = render_ranges(&screen);
    assert!(content.contains("set-option buffer scrollback_colors"));
    assert!(content.contains("1.1,1.5|rgb:FF0000,default+b"));
}

#[test]
fn write_ranges_empty() {
    let screen = make_screen(
        vec![ProcessedLine {
            text: "plain".to_string(),
            spans: vec![],
        }],
        CursorPosition { line: 1, col: 1 },
    );
    let content = render_ranges(&screen);
    assert!(content.is_empty());
}

#[test]
fn escape_face_special_chars() {
    assert_eq!(escape_face("rgb:FF|00"), "rgb:FF\\|00");
    assert_eq!(escape_face("a\\b"), "a\\\\b");
    assert_eq!(escape_face("normal"), "normal");
}



#[test]
fn write_ranges_chunking() {
    const MAX_CHUNK_SIZE: usize = 900_000;
    let face = "rgb:FF0000,default".to_string();

    // All entries on line 1 → uniform entry '1.1,1.1|rgb:FF0000,default'
    let sample = format!("'1.1,1.1|{face}'");
    let num_spans = MAX_CHUNK_SIZE / (sample.len() + 1) + 2;

    let screen = make_screen(
        vec![ProcessedLine {
            text: "x".to_string(),
            spans: (0..num_spans)
                .map(|_| Span {
                    start_byte: 1,
                    end_byte: 2,
                    face: face.clone(),
                })
                .collect(),
        }],
        CursorPosition { line: 1, col: 1 },
    );
    let content = render_ranges(&screen);

    let output_lines: Vec<&str> = content.lines().collect();
    assert!(
        output_lines.len() >= 2,
        "Expected chunked output, got {} lines",
        output_lines.len()
    );
    // First chunk has %val{timestamp}
    assert!(output_lines[0].contains("%val{timestamp}"));
    // Second chunk uses -add
    assert!(output_lines[1].contains("-add"));
}

#[test]
fn span_end_byte_exclusive_to_inclusive() {
    let input = b"\x1b[31mHello\x1b[0m World";
    let pd = PipeData {
        cursor_x: 0,
        cursor_y: 0,
        lines: 24,
        columns: 80,
    };
    let screen = process_bytes(
        &pd,
        input,
        &DEFAULT_PALETTE,
        DEFAULT_MAX_SCROLLBACK_LINES,
    );

    // The reconstruction gives an exclusive end_byte
    let span = &screen.lines[0].spans[0];
    assert_eq!(span.start_byte, 1);
    assert_eq!(span.end_byte, 6); // exclusive: "Hello" = 5 bytes

    // The ranges script writes the inclusive end (end_byte - 1)
    let content = render_ranges(&screen);

    // Output should use inclusive end: 6 - 1 = 5
    assert!(content.contains("1.1,1.5|"));
}


#[test]
fn write_text_empty_screen() {
    let screen = make_screen(vec![], CursorPosition { line: 1, col: 1 });
    let content = render_text(&screen);
    assert_eq!(content, "");
}

#[test]
fn write_ranges_multiple_spans_same_line() {
    let screen = make_screen(
        vec![ProcessedLine {
            text: "RedGreenBlue".to_string(),
            spans: vec![
                Span {
                    start_byte: 1,
                    end_byte: 4,
                    face: "rgb:FF0000,default".to_string(),
                },
                Span {
                    start_byte: 4,
                    end_byte: 9,
                    face: "rgb:00FF00,default".to_string(),
                },
                Span {
                    start_byte: 9,
                    end_byte: 13,
                    face: "rgb:0000FF,default".to_string(),
                },
            ],
        }],
        CursorPosition { line: 1, col: 1 },
    );
    let content = render_ranges(&screen);

    // All spans should be in one set-option command
    assert_eq!(content.lines().count(), 1);
    assert!(content.contains("1.1,1.3|rgb:FF0000,default"));
    assert!(content.contains("1.4,1.8|rgb:00FF00,default"));
    assert!(content.contains("1.9,1.12|rgb:0000FF,default"));
}

#[test]
fn write_ranges_multiple_lines() {
    let screen = make_screen(
        vec![
            ProcessedLine {
                text: "Red".to_string(),
                spans: vec![Span {
                    start_byte: 1,
                    end_byte: 4,
                    face: "rgb:FF0000,default".to_string(),
                }],
            },
            ProcessedLine {
                text: "Green".to_string(),
                spans: vec![Span {
                    start_byte: 1,
                    end_byte: 6,
                    face: "rgb:00FF00,default".to_string(),
                }],
            },
            ProcessedLine {
                text: "Blue".to_string(),
                spans: vec![Span {
                    start_byte: 1,
                    end_byte: 5,
                    face: "rgb:0000FF,default".to_string(),
                }],
            },
        ],
        CursorPosition { line: 1, col: 1 },
    );
    let content = render_ranges(&screen);

    assert!(content.contains("1.1,1.3|rgb:FF0000,default"));
    assert!(content.contains("2.1,2.5|rgb:00FF00,default"));
    assert!(content.contains("3.1,3.4|rgb:0000FF,default"));
}


#[test]
fn write_text_single_empty_line() {
    let screen = make_screen(
        vec![ProcessedLine {
            text: "".to_string(),
            spans: vec![],
        }],
        CursorPosition { line: 1, col: 1 },
    );
    let content = render_text(&screen);
    assert_eq!(content, "\n");
}

#[test]
fn escape_face_single_quote() {
    assert_eq!(escape_face("it's"), "it''s");
}


#[test]
fn escape_kak_single_quote_normal() {
    assert_eq!(escape_kak_single_quote("/tmp/foo"), "/tmp/foo");
}

#[test]
fn escape_kak_single_quote_with_quote() {
    assert_eq!(escape_kak_single_quote("/tmp/it's"), "/tmp/it''s");
}

#[test]
fn escape_kak_single_quote_empty() {
    assert_eq!(escape_kak_single_quote(""), "");
}

#[test]
fn escape_shell_single_quote_normal() {
    assert_eq!(escape_shell_single_quote("/tmp/foo"), "/tmp/foo");
}

#[test]
fn escape_shell_single_quote_with_quote() {
    assert_eq!(escape_shell_single_quote("/tmp/it's"), "/tmp/it'\\''s");
}

#[test]
fn escape_shell_single_quote_with_command_substitution() {
    assert_eq!(
        escape_shell_single_quote("/tmp/$(rm -rf /)"),
        "/tmp/$(rm -rf /)"
    );
}

#[test]
fn write_init_kak_escapes_single_quotes_in_paths() {
    let screen = make_screen(
        vec![ProcessedLine {
            text: "test".to_string(),
            spans: vec![],
        }],
        CursorPosition { line: 1, col: 1 },
    );
    let evil_dir = "/tmp/ksb-test/it's-a-dir";
    let ranges_path = "/tmp/ksb-test/it's-a-dir/ranges.kak";
    let content = render_init_kak(&screen, &wid("42"), evil_dir, ranges_path);

    // Kakoune contexts should use '' escaping
    assert!(
        content.contains("scrollback_tmp_dir 'it''s-a-dir'") || content.contains("it''s-a-dir"),
        "Kakoune single quotes should be escaped with '', got:\n{content}"
    );

    // Shell contexts should use '\'' escaping
    assert!(
        content.contains("it'\\''s-a-dir"),
        "Shell single quotes should be escaped with '\\''', got:\n{content}"
    );

    // The dangerous 3-layer nesting pattern should not exist
    assert!(
        !content.contains("echo \"nop %sh{"),
        "Should not contain nested echo nop %sh pattern, got:\n{content}"
    );

    // rm -rf should use -- for safety
    assert!(
        content.contains("rm -rf --"),
        "rm -rf should use -- flag, got:\n{content}"
    );
}

#[test]
fn write_init_kak_large_cursor_coords() {
    let screen = make_screen(
        vec![ProcessedLine {
            text: "test".to_string(),
            spans: vec![],
        }],
        CursorPosition {
            line: 1000,
            col: 50,
        },
    );
    let content = render_init_kak(&screen, &wid("42"), "/tmp/ksb-test", "/tmp/ksb-test/ranges.kak");
    assert!(content.contains("select 1000.50,1000.50"));
}
