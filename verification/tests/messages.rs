use kakoune_scrollback::cli::{check_reentry, parse_args, TargetId};
use kakoune_scrollback::kitty::{
    parse_pipe_data_str, parse_window_id, Field, PipeData, PipeDataError, WindowId, WindowIdError,
};
use kakoune_scrollback::output::source_command;
use kakoune_scrollback::tmux::{parse_version, VersionError};

fn rejected(s: &str) -> PipeDataError {
    parse_pipe_data_str(s).unwrap_err()
}

#[test]
fn pipe_data_with_too_few_or_too_many_parts() {
    assert_eq!(rejected("1,2:3"), PipeDataError::Parts);
    assert_eq!(rejected("0:1,1:24,80:9"), PipeDataError::Parts);
    assert_eq!(rejected(""), PipeDataError::Parts);
    assert_eq!(
        PipeDataError::Parts.to_string(),
        "KITTY_PIPE_DATA: expected 3 colon-separated parts"
    );
}

#[test]
fn pipe_data_with_a_comma_in_the_first_part() {
    let e = rejected("0,1:1,1:24,80");
    assert_eq!(
        e,
        PipeDataError::ScrolledByComma {
            found: "0,1".to_string()
        }
    );
    assert_eq!(
        e.to_string(),
        "KITTY_PIPE_DATA: invalid scrolled_by '0,1' (unexpected comma)"
    );
}

#[test]
fn pipe_data_with_a_field_that_is_no_number() {
    let cases = [
        ("x:1,1:24,80", Field::ScrolledBy, "scrolled_by"),
        ("0:x,1:24,80", Field::CursorX, "cursor_x"),
        ("0:1,-1:24,80", Field::CursorY, "cursor_y"),
        ("0:1,1:65536,80", Field::Lines, "lines"),
        ("0:1,1:24,", Field::Columns, "columns"),
    ];
    for (text, field, name) in cases {
        let e = rejected(text);
        assert_eq!(e, PipeDataError::NotANumber { field });
        assert_eq!(e.to_string(), format!("KITTY_PIPE_DATA: invalid {name}"));
    }
}

#[test]
fn pipe_data_with_a_part_that_is_no_pair() {
    let e = rejected("0:1:24,80");
    assert_eq!(
        e,
        PipeDataError::CursorPair {
            found: "1".to_string()
        }
    );
    assert_eq!(
        e.to_string(),
        "KITTY_PIPE_DATA: expected 'cursor_x,cursor_y' in second part, got '1'"
    );
    let e = rejected("0:1,1:24,80,1");
    assert_eq!(
        e,
        PipeDataError::SizePair {
            found: "24,80,1".to_string()
        }
    );
    assert_eq!(
        e.to_string(),
        "KITTY_PIPE_DATA: expected 'lines,columns' in third part, got '24,80,1'"
    );
}

#[test]
fn pipe_data_with_a_zero() {
    let cases = [
        ("0:1,1:0,80", Field::Lines, "lines must be at least 1"),
        ("0:1,1:24,0", Field::Columns, "columns must be at least 1"),
        ("0:0,1:24,80", Field::CursorX, "cursor_x must be at least 1 (1-based)"),
        ("0:1,0:24,80", Field::CursorY, "cursor_y must be at least 1 (1-based)"),
    ];
    for (text, field, message) in cases {
        let e = rejected(text);
        assert_eq!(e, PipeDataError::Zero { field });
        assert_eq!(e.to_string(), format!("KITTY_PIPE_DATA: {message}"));
    }
}

#[test]
fn pipe_data_with_the_cursor_outside_the_grid() {
    let e = rejected("0:81,1:24,80");
    assert_eq!(
        e,
        PipeDataError::CursorXBeyond {
            cursor_x: 81,
            columns: 80
        }
    );
    assert_eq!(
        e.to_string(),
        "KITTY_PIPE_DATA: cursor_x (81) must be at most columns (80)"
    );
    let e = rejected("0:1,9999:24,80");
    assert_eq!(
        e,
        PipeDataError::CursorYBeyond {
            cursor_y: 9999,
            lines: 24
        }
    );
    assert_eq!(
        e.to_string(),
        "KITTY_PIPE_DATA: cursor_y (9999) must be at most lines (24)"
    );
}

#[test]
fn pipe_data_reports_the_first_fault() {
    assert_eq!(rejected("0,0:x:0"), PipeDataError::ScrolledByComma { found: "0,0".to_string() });
    assert_eq!(
        rejected("0:x,y:0,0"),
        PipeDataError::NotANumber {
            field: Field::CursorX
        }
    );
    assert_eq!(
        rejected("0:0,0:0,0"),
        PipeDataError::Zero {
            field: Field::Lines
        }
    );
}

#[test]
fn pipe_data_takes_a_plus_sign_and_leading_zeros() {
    let pd = parse_pipe_data_str(" +7:+2,03:024,+80 \n").unwrap();
    assert_eq!(
        pd,
        PipeData {
            cursor_x: 1,
            cursor_y: 2,
            lines: 24,
            columns: 80
        }
    );
    assert!(pd.is_valid());
}

#[test]
fn pipe_data_validity() {
    let pd = PipeData {
        cursor_x: 80,
        cursor_y: 0,
        lines: 24,
        columns: 80,
    };
    assert!(!pd.is_valid());
    let pd = PipeData {
        cursor_x: 0,
        cursor_y: 0,
        lines: 0,
        columns: 80,
    };
    assert!(!pd.is_valid());
}

#[test]
fn window_id_messages() {
    let e = parse_window_id("abc").unwrap_err();
    assert_eq!(
        e,
        WindowIdError::NotANumber {
            found: "abc".to_string()
        }
    );
    assert_eq!(
        e.to_string(),
        "invalid kitty window ID 'abc' — expected a number (check your kitty.conf)"
    );
    let e = parse_window_id("0").unwrap_err();
    assert_eq!(e, WindowIdError::Zero);
    assert_eq!(
        e.to_string(),
        "invalid kitty window ID '0' — window IDs start at 1"
    );
    assert!(parse_window_id(" 42").is_err());
    assert!(parse_window_id("4294967296").is_err());
    assert_eq!(parse_window_id("4294967295").unwrap().get(), 4294967295);
}

#[test]
fn window_id_is_never_zero() {
    assert_eq!(WindowId::new(0), None);
    assert_eq!(WindowId::new(7).unwrap().get(), 7);
}

#[test]
fn version_message() {
    let e = parse_version("tmux 3.2a\n").unwrap_err();
    assert_eq!(
        e,
        VersionError {
            found: "3.2a".to_string()
        }
    );
    assert_eq!(
        e.to_string(),
        "tmux 3.3 or later is required (found '3.2a'). display-popup -b, -e, -T were added in tmux 3.3."
    );
}

#[test]
fn version_parts() {
    assert!(parse_version("3.10").is_ok());
    assert!(parse_version("tmux 3.3.1").is_ok());
    assert!(parse_version("tmux 3").is_err());
    assert!(parse_version("tmux 3.x").is_err());
    assert!(parse_version("tmux next-3.4").is_err());
    assert!(parse_version("10.0").is_ok());
    assert!(parse_version("tmux 3.3é").is_ok());
    assert!(parse_version("tmux 3.3-rc").is_err());
}

#[test]
fn reentry_message() {
    assert_eq!(
        check_reentry(Some("")),
        Err("Already inside kakoune-scrollback".to_string())
    );
    assert_eq!(check_reentry(None), Ok(()));
}

#[test]
fn argument_messages() {
    let args = |list: &[&str]| list.iter().map(|s| s.to_string()).collect::<Vec<String>>();
    assert_eq!(
        parse_args(&args(&["ksb"])),
        Err("missing required argument: <WINDOW_ID> or --tmux-pane <PANE_ID>".to_string())
    );
    assert_eq!(
        parse_args(&args(&[])),
        Err("missing required argument: <WINDOW_ID> or --tmux-pane <PANE_ID>".to_string())
    );
    assert_eq!(
        parse_args(&args(&["ksb", "--tmux-pane"])),
        Err("--tmux-pane requires a pane ID argument".to_string())
    );
    assert_eq!(
        parse_args(&args(&["ksb", "--foo"])),
        Err("unexpected argument '--foo'".to_string())
    );
}

#[test]
fn target_names() {
    let kitty = TargetId::Kitty(WindowId::new(42).unwrap());
    assert_eq!(kitty.to_string(), "kitty:42");
    assert_eq!(kitty.backend_name(), "kitty");
    let tmux = TargetId::Tmux("%5".to_string());
    assert_eq!(tmux.to_string(), "tmux:%5");
    assert_eq!(tmux.backend_name(), "tmux");
}

#[test]
fn source_command_quotes_the_path() {
    assert_eq!(source_command("/tmp/init.kak"), "source '/tmp/init.kak'");
    assert_eq!(
        source_command("/tmp/it's/init.kak"),
        "source '/tmp/it''s/init.kak'"
    );
}
