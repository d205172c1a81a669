use kakoune_scrollback::cli::{check_reentry, parse_args, parse_max_lines, CliAction, TargetId};
use kakoune_scrollback::kitty::parse_window_id;

fn kitty_target(s: &str) -> TargetId {
    TargetId::Kitty(parse_window_id(s).unwrap())
}

#[test]
fn check_reentry_blocks() {
    let err = check_reentry(Some("1"));
    assert!(err.is_err());
    assert!(err
        .unwrap_err()
        .to_string()
        .contains("Already inside kakoune-scrollback"));
}

#[test]
fn check_reentry_allows() {
    assert!(check_reentry(None).is_ok());
}

#[test]
fn parse_max_lines_valid() {
    assert_eq!(parse_max_lines("100000"), Some(100000));
    assert_eq!(parse_max_lines("0"), Some(0));
    assert_eq!(parse_max_lines("1"), Some(1));
    assert_eq!(parse_max_lines(" 100 "), Some(100));
    assert_eq!(parse_max_lines("100\n"), Some(100));
}

#[test]
fn parse_max_lines_invalid() {
    assert_eq!(parse_max_lines(""), None);
    assert_eq!(parse_max_lines("abc"), None);
    assert_eq!(parse_max_lines("-1"), None);
    assert_eq!(parse_max_lines("3.14"), None);
    assert_eq!(parse_max_lines("100_000"), None);
}

#[test]
fn parse_max_lines_overflow() {
    // usize::MAX + 1 as a string
    let overflow = format!("{}0", usize::MAX);
    assert_eq!(parse_max_lines(&overflow), None);
}

#[test]
fn parse_args_help_short() {
    let args = vec!["ksb".into(), "-h".into()];
    assert!(matches!(parse_args(&args), Ok(CliAction::ShowHelp)));
}

#[test]
fn parse_args_help_long() {
    let args = vec!["ksb".into(), "--help".into()];
    assert!(matches!(parse_args(&args), Ok(CliAction::ShowHelp)));
}

#[test]
fn parse_args_version_short() {
    let args = vec!["ksb".into(), "-V".into()];
    assert!(matches!(parse_args(&args), Ok(CliAction::ShowVersion)));
}

#[test]
fn parse_args_version_long() {
    let args = vec!["ksb".into(), "--version".into()];
    assert!(matches!(parse_args(&args), Ok(CliAction::ShowVersion)));
}

#[test]
fn parse_args_window_id() {
    let args = vec!["ksb".into(), "42".into()];
    assert!(matches!(
        parse_args(&args),
        Ok(CliAction::RunKitty { window_id_arg }) if window_id_arg == "42"
    ));
}

#[test]
fn parse_args_no_args() {
    let args = vec!["ksb".into()];
    assert!(parse_args(&args).is_err());
}

#[test]
fn parse_args_unknown_flag() {
    let args = vec!["ksb".into(), "--foo".into()];
    assert!(parse_args(&args).is_err());
}

#[test]
fn parse_args_help_with_trailing() {
    let args = vec!["ksb".into(), "--help".into(), "123".into()];
    assert!(matches!(parse_args(&args), Ok(CliAction::ShowHelp)));
}

#[test]
fn parse_args_tmux_pane() {
    let args = vec!["ksb".into(), "--tmux-pane".into(), "%5".into()];
    assert!(matches!(
        parse_args(&args),
        Ok(CliAction::RunTmux { pane_id }) if pane_id == "%5"
    ));
}

#[test]
fn parse_args_tmux_pane_missing_id() {
    let args = vec!["ksb".into(), "--tmux-pane".into()];
    assert!(parse_args(&args).is_err());
}

#[test]
fn parse_args_tmux_pane_empty_id() {
    let args = vec!["ksb".into(), "--tmux-pane".into(), "".into()];
    assert!(parse_args(&args).is_err());
}

#[test]
fn parse_args_generate_tmux_conf() {
    let args = vec!["ksb".into(), "--generate-tmux-conf".into()];
    assert!(matches!(parse_args(&args), Ok(CliAction::GenerateTmuxConf)));
}

#[test]
fn target_id_backend_name_kitty() {
    let t = kitty_target("1");
    assert_eq!(t.backend_name(), "kitty");
}

#[test]
fn target_id_backend_name_tmux() {
    let t = TargetId::Tmux("%5".to_string());
    assert_eq!(t.backend_name(), "tmux");
}

#[test]
fn target_id_display() {
    let t = kitty_target("42");
    assert_eq!(t.to_string(), "kitty:42");
    let t = TargetId::Tmux("%5".to_string());
    assert_eq!(t.to_string(), "tmux:%5");
}
