use kakoune_scrollback::tmux::{normalize_capture, parse_version, CONF_SNIPPET};


#[test]
fn conf_snippet_is_not_empty() {
    assert!(!CONF_SNIPPET.is_empty());
    assert!(CONF_SNIPPET.contains("bind-key"));
    assert!(CONF_SNIPPET.contains("kakoune-scrollback --tmux-pane"));
    assert!(CONF_SNIPPET.contains("SCROLLBACK_PIPE_DATA"));
    assert!(CONF_SNIPPET.contains("capture-pane"));
}

#[test]
fn normalize_bare_lf_to_crlf() {
    let mut data = b"line1\nline2\nline3\n".to_vec();
    normalize_capture(&mut data);
    assert_eq!(data, b"line1\r\nline2\r\nline3\r\n");
}

#[test]
fn normalize_preserves_existing_crlf() {
    let mut data = b"line1\r\nline2\r\n".to_vec();
    normalize_capture(&mut data);
    assert_eq!(data, b"line1\r\nline2\r\n");
}

#[test]
fn normalize_mixed_lf_and_crlf() {
    let mut data = b"line1\nline2\r\nline3\n".to_vec();
    normalize_capture(&mut data);
    assert_eq!(data, b"line1\r\nline2\r\nline3\r\n");
}

#[test]
fn normalize_empty_input() {
    let mut data = Vec::new();
    normalize_capture(&mut data);
    assert!(data.is_empty());
}

#[test]
fn normalize_leading_lf() {
    let mut data = b"\nfoo".to_vec();
    normalize_capture(&mut data);
    assert_eq!(data, b"\r\nfoo");
}

#[test]
fn normalize_sgr_with_lf() {
    let mut data = b"\x1b[31mRed\x1b[0m\nNext line\n".to_vec();
    normalize_capture(&mut data);
    assert_eq!(data, b"\x1b[31mRed\x1b[0m\r\nNext line\r\n");
}

#[test]
fn normalize_consecutive_lf() {
    let mut data = b"A\n\n\nB\n".to_vec();
    normalize_capture(&mut data);
    assert_eq!(data, b"A\r\n\r\n\r\nB\r\n");
}


#[test]
fn parse_version_3_3_ok() {
    assert!(parse_version("tmux 3.3").is_ok());
}

#[test]
fn parse_version_3_3a_ok() {
    assert!(parse_version("tmux 3.3a").is_ok());
}

#[test]
fn parse_version_3_4_ok() {
    assert!(parse_version("tmux 3.4").is_ok());
}

#[test]
fn parse_version_4_0_ok() {
    assert!(parse_version("tmux 4.0").is_ok());
}

#[test]
fn parse_version_3_2_too_old() {
    let err = parse_version("tmux 3.2").unwrap_err();
    assert!(err.to_string().contains("3.3 or later"));
}

#[test]
fn parse_version_2_9a_too_old() {
    assert!(parse_version("tmux 2.9a").is_err());
}

#[test]
fn parse_version_no_prefix() {
    assert!(parse_version("3.4").is_ok());
}

#[test]
fn parse_version_empty() {
    assert!(parse_version("").is_err());
}

#[test]
fn parse_version_garbage() {
    assert!(parse_version("not-a-version").is_err());
}

#[test]
fn parse_version_trailing_newline() {
    assert!(parse_version("tmux 3.3\n").is_ok());
}
