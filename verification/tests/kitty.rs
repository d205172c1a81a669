use kakoune_scrollback::kitty::{parse_pipe_data_str, parse_window_id, WindowId};


#[test]
fn parse_pipe_data_valid() {
    let data = parse_pipe_data_str("42:6,24:50,120").unwrap();
    assert_eq!(data.cursor_x, 5);
    assert_eq!(data.cursor_y, 23);
    assert_eq!(data.lines, 50);
    assert_eq!(data.columns, 120);
}

#[test]
fn parse_pipe_data_zeros() {
    let data = parse_pipe_data_str("0:1,1:24,80").unwrap();
    assert_eq!(data.cursor_x, 0);
    assert_eq!(data.cursor_y, 0);
    assert_eq!(data.lines, 24);
    assert_eq!(data.columns, 80);
}

#[test]
fn parse_pipe_data_no_scroll() {
    let data = parse_pipe_data_str("0:4,11:24,80").unwrap();
    assert_eq!(data.cursor_x, 3);
    assert_eq!(data.cursor_y, 10);
}

#[test]
fn parse_pipe_data_invalid() {
    assert!(parse_pipe_data_str("invalid").is_err());
    assert!(parse_pipe_data_str("").is_err());
    assert!(parse_pipe_data_str("1,2:3").is_err()); // missing third part
}

#[test]
fn parse_pipe_data_non_numeric() {
    assert!(parse_pipe_data_str("abc:1,1:24,80").is_err());
}

#[test]
fn parse_window_id_valid() {
    assert_eq!(parse_window_id("42").unwrap(), WindowId::new(42).unwrap());
    assert_eq!(parse_window_id("1").unwrap(), WindowId::new(1).unwrap());
}

#[test]
fn parse_window_id_normalizes() {
    assert_eq!(parse_window_id("042").unwrap(), WindowId::new(42).unwrap());
}

#[test]
fn window_id_display() {
    assert_eq!(WindowId::new(42).unwrap().to_string(), "42");
    assert_eq!(WindowId::new(1).unwrap().to_string(), "1");
}

#[test]
fn parse_window_id_rejects_zero() {
    assert!(parse_window_id("0").is_err());
}

#[test]
fn parse_window_id_rejects_unexpanded_env_var() {
    assert!(parse_window_id("$KITTY_WINDOW_ID").is_err());
}

#[test]
fn parse_window_id_rejects_unexpanded_placeholder() {
    assert!(parse_window_id("@active-kitty-window-id").is_err());
}

#[test]
fn parse_window_id_rejects_empty() {
    assert!(parse_window_id("").is_err());
}

#[test]
fn parse_window_id_rejects_non_numeric() {
    assert!(parse_window_id("abc").is_err());
}

#[test]
fn parse_pipe_data_rejects_zero_lines() {
    let err = parse_pipe_data_str("0:1,1:0,80");
    assert!(err.is_err());
    let msg = err.unwrap_err().to_string();
    assert!(
        msg.contains("KITTY_PIPE_DATA:"),
        "error should have standard prefix: {msg}"
    );
    assert!(msg.contains("lines"), "error should mention lines: {msg}");
}

#[test]
fn parse_pipe_data_rejects_zero_columns() {
    let err = parse_pipe_data_str("0:1,1:24,0");
    assert!(err.is_err());
    let msg = err.unwrap_err().to_string();
    assert!(
        msg.contains("KITTY_PIPE_DATA:"),
        "error should have standard prefix: {msg}"
    );
    assert!(
        msg.contains("columns"),
        "error should mention columns: {msg}"
    );
}

#[test]
fn parse_pipe_data_rejects_cursor_y_out_of_range() {
    let err = parse_pipe_data_str("0:1,25:24,80");
    assert!(err.is_err());
    let msg = err.unwrap_err().to_string();
    assert!(
        msg.contains("KITTY_PIPE_DATA:"),
        "error should have standard prefix: {msg}"
    );
    assert!(
        msg.contains("cursor_y"),
        "error should mention cursor_y: {msg}"
    );
}

#[test]
fn parse_pipe_data_rejects_cursor_x_out_of_range() {
    let err = parse_pipe_data_str("0:81,1:24,80");
    assert!(err.is_err());
    let msg = err.unwrap_err().to_string();
    assert!(
        msg.contains("KITTY_PIPE_DATA:"),
        "error should have standard prefix: {msg}"
    );
    assert!(
        msg.contains("cursor_x"),
        "error should mention cursor_x: {msg}"
    );
}

#[test]
fn parse_pipe_data_cursor_at_max_valid_position() {
    let data = parse_pipe_data_str("0:80,24:24,80").unwrap();
    assert_eq!(data.cursor_x, 79);
    assert_eq!(data.cursor_y, 23);
}

#[test]
fn parse_pipe_data_rejects_huge_cursor_y() {
    let err = parse_pipe_data_str("0:1,9999:24,80");
    assert!(err.is_err());
    let msg = err.unwrap_err().to_string();
    assert!(
        msg.contains("KITTY_PIPE_DATA:"),
        "error should have standard prefix: {msg}"
    );
    assert!(
        msg.contains("cursor_y"),
        "error should mention cursor_y: {msg}"
    );
}

#[test]
fn parse_pipe_data_rejects_cursor_x_zero() {
    let err = parse_pipe_data_str("0:0,1:24,80");
    assert!(err.is_err());
    let msg = err.unwrap_err().to_string();
    assert!(
        msg.contains("KITTY_PIPE_DATA:"),
        "error should have standard prefix: {msg}"
    );
    assert!(
        msg.contains("cursor_x"),
        "error should mention cursor_x: {msg}"
    );
}

#[test]
fn parse_pipe_data_rejects_cursor_y_zero() {
    let err = parse_pipe_data_str("0:1,0:24,80");
    assert!(err.is_err());
    let msg = err.unwrap_err().to_string();
    assert!(
        msg.contains("KITTY_PIPE_DATA:"),
        "error should have standard prefix: {msg}"
    );
    assert!(
        msg.contains("cursor_y"),
        "error should mention cursor_y: {msg}"
    );
}

#[test]
fn parse_pipe_data_rejects_missing_cursor_comma() {
    assert!(parse_pipe_data_str("0:1:24,80").is_err());
}

#[test]
fn parse_pipe_data_rejects_extra_cursor_comma() {
    assert!(parse_pipe_data_str("0:1,2,3:24,80").is_err());
}

#[test]
fn parse_pipe_data_rejects_non_numeric_cursor_x() {
    assert!(parse_pipe_data_str("0:x,1:24,80").is_err());
}

#[test]
fn parse_pipe_data_rejects_non_numeric_cursor_y() {
    assert!(parse_pipe_data_str("0:1,y:24,80").is_err());
}

#[test]
fn parse_pipe_data_trims_whitespace() {
    let data = parse_pipe_data_str("0:1,1:24,80\n").unwrap();
    assert_eq!(data.cursor_x, 0);
    assert_eq!(data.cursor_y, 0);
    assert_eq!(data.lines, 24);
    assert_eq!(data.columns, 80);
}
