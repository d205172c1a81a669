//! What the command line decides: which terminal is meant, what the arguments
//! ask for, and how many rows of scrollback to keep.

use vstd::prelude::*;
use vstd::string::StringExecFns;
use crate::decimal::{decimal, parse_unsigned, parse_unsigned_of, push_decimal};
use crate::kitty::{PipeData, WindowId};
use crate::lex::{trim, trimmed};
use crate::model::{cursor_cell_in_text, cursor_in_text, lines_on_one_line, screen_of, screen_ok};
use crate::terminal::{process_bytes, terminal_rows, ProcessedScreen};
use crate::text::{chars_of, same_chars};

verus! {

/// The terminal whose scrollback is shown: a Kitty window or a tmux pane.
#[derive(Debug, Clone, PartialEq, Eq)]
pub enum TargetId {
    Kitty(WindowId),
    /// A pane identifier such as `%5`.
    Tmux(String),
}

/// The name of a target: the backend, a colon, and the identifier.
pub open spec fn target_name(t: TargetId) -> Seq<char> {
    match t {
        TargetId::Kitty(w) => "kitty:"@ + decimal(w.value() as nat),
        TargetId::Tmux(pane) => "tmux:"@ + pane@,
    }
}

impl TargetId {
    /// Whether the target is a Kitty window.
    pub open spec fn is_kitty(self) -> bool {
        self is Kitty
    }

    /// `kitty` or `tmux`: the value of the editor's option that names the
    /// backend.
    pub fn backend_name(&self) -> (name: &'static str)
        ensures
            name@ == if self.is_kitty() {
                "kitty"@
            } else {
                "tmux"@
            },
    {
        match self {
            TargetId::Kitty(_) => "kitty",
            TargetId::Tmux(_) => "tmux",
        }
    }

    /// The name of the target, `kitty:42` or `tmux:%5`.
    pub fn to_string(&self) -> (s: String)
        ensures
            s@ == target_name(*self),
    {
        let mut s = String::new();
        match self {
            TargetId::Kitty(w) => {
                s.append("kitty:");
                push_decimal(&mut s, w.get() as usize);
            },
            TargetId::Tmux(pane) => {
                s.append("tmux:");
                s.append(pane.as_str());
            },
        }
        s
    }
}

/// What the arguments ask for.
#[derive(Debug, Clone, PartialEq, Eq)]
pub enum CliAction {
    ShowVersion,
    ShowHelp,
    RunKitty { window_id_arg: String },
    RunTmux { pane_id: String },
    GenerateTmuxConf,
}

/// `CliAction` with its texts as character sequences.
pub enum CliActionView {
    ShowVersion,
    ShowHelp,
    RunKitty { window_id_arg: Seq<char> },
    RunTmux { pane_id: Seq<char> },
    GenerateTmuxConf,
}

impl View for CliAction {
    type V = CliActionView;

    open spec fn view(&self) -> CliActionView {
        match *self {
            CliAction::ShowVersion => CliActionView::ShowVersion,
            CliAction::ShowHelp => CliActionView::ShowHelp,
            CliAction::RunKitty { window_id_arg } => CliActionView::RunKitty {
                window_id_arg: window_id_arg@,
            },
            CliAction::RunTmux { pane_id } => CliActionView::RunTmux { pane_id: pane_id@ },
            CliAction::GenerateTmuxConf => CliActionView::GenerateTmuxConf,
        }
    }
}

/// What the arguments mean; the first is the program's name. The second
/// decides: a flag for help, the version or the tmux snippet; `--tmux-pane`,
/// which wants a pane identifier that is not empty after it; anything else
/// that starts with `-` is a fault; any other text is a window identifier.
pub open spec fn parse_args_spec(args: Seq<Seq<char>>) -> Result<CliActionView, Seq<char>> {
    if args.len() < 2 {
        Err("missing required argument: <WINDOW_ID> or --tmux-pane <PANE_ID>"@)
    } else {
        let arg = args[1];
        if arg == "-h"@ || arg == "--help"@ {
            Ok(CliActionView::ShowHelp)
        } else if arg == "-V"@ || arg == "--version"@ {
            Ok(CliActionView::ShowVersion)
        } else if arg == "--generate-tmux-conf"@ {
            Ok(CliActionView::GenerateTmuxConf)
        } else if arg == "--tmux-pane"@ {
            if args.len() >= 3 && args[2].len() > 0 {
                Ok(CliActionView::RunTmux { pane_id: args[2] })
            } else {
                Err("--tmux-pane requires a pane ID argument"@)
            }
        } else if arg.len() > 0 && arg[0] == '-' {
            Err("unexpected argument '"@ + arg + "'"@)
        } else {
            Ok(CliActionView::RunKitty { window_id_arg: arg })
        }
    }
}

/// The arguments, each as a character sequence.
pub open spec fn arg_views(args: Seq<String>) -> Seq<Seq<char>> {
    args.map_values(|a: String| a@)
}

fn is_text(arg: &Vec<char>, text: &str) -> (r: bool)
    ensures
        r == (arg@ == text@),
{
    let t = chars_of(text);
    same_chars(arg, &t)
}

/// Reads the arguments of the command line.
pub fn parse_args(args: &[String]) -> (r: Result<CliAction, String>)
    ensures
        match r {
            Ok(action) => parse_args_spec(arg_views(args@)) == Ok::<CliActionView, Seq<char>>(
                action@,
            ),
            Err(message) => parse_args_spec(arg_views(args@)) == Err::<CliActionView, Seq<char>>(
                message@,
            ),
        },
{
    if args.len() < 2 {
        return Err(
            String::from_str("missing required argument: <WINDOW_ID> or --tmux-pane <PANE_ID>"),
        );
    }
    let arg = chars_of(args[1].as_str());
    if is_text(&arg, "-h") || is_text(&arg, "--help") {
        Ok(CliAction::ShowHelp)
    } else if is_text(&arg, "-V") || is_text(&arg, "--version") {
        Ok(CliAction::ShowVersion)
    } else if is_text(&arg, "--generate-tmux-conf") {
        Ok(CliAction::GenerateTmuxConf)
    } else if is_text(&arg, "--tmux-pane") {
        if args.len() >= 3 && !args[2].as_str().is_empty() {
            Ok(CliAction::RunTmux { pane_id: args[2].clone() })
        } else {
            Err(String::from_str("--tmux-pane requires a pane ID argument"))
        }
    } else if arg.len() > 0 && arg[0] == '-' {
        let mut message = String::from_str("unexpected argument '");
        message.append(args[1].as_str());
        message.append("'");
        Err(message)
    } else {
        Ok(CliAction::RunKitty { window_id_arg: args[1].clone() })
    }
}

/// Refuses to start inside a viewer that this program started: the
/// environment says so with a variable that is then set.
pub fn check_reentry(env_val: Option<&str>) -> (r: Result<(), String>)
    ensures
        env_val is Some <==> r is Err,
        r matches Err(message) ==> message@ == "Already inside kakoune-scrollback"@,
{
    if env_val.is_some() {
        Err(String::from_str("Already inside kakoune-scrollback"))
    } else {
        Ok(())
    }
}

/// The number of rows that a setting asks for: the number that the text
/// writes once the whitespace around it is gone.
pub fn parse_max_lines(value: &str) -> (r: Option<usize>)
    ensures
        match r {
            Some(n) => parse_unsigned(trim(value@), usize::MAX as nat) == Some(n as nat),
            None => parse_unsigned(trim(value@), usize::MAX as nat) is None,
        },
{
    let all = chars_of(value);
    let t = trimmed(&all);
    parse_unsigned_of(&t, usize::MAX)
}

/// Reconstructs the screen from what was read: `process_bytes` with the
/// arguments in the order in which the program has them.
pub fn process_screen(
    pipe_data: &PipeData,
    palette: &[u8; 48],
    stdin_data: &[u8],
    max_scrollback_lines: usize,
) -> (screen: ProcessedScreen)
    requires
        pipe_data.valid(),
        pipe_data.emulable(),
    ensures
        screen@ == screen_of(
            terminal_rows(*pipe_data, stdin_data@, max_scrollback_lines),
            *pipe_data,
            palette@,
        ),
        pipe_data.lines <= terminal_rows(*pipe_data, stdin_data@, max_scrollback_lines).len()
            <= pipe_data.lines + max_scrollback_lines,
        screen@.lines.len() <= terminal_rows(*pipe_data, stdin_data@, max_scrollback_lines).len(),
        screen_ok(screen@),
        lines_on_one_line(screen@.lines),
        cursor_in_text(screen@) == cursor_cell_in_text(
            terminal_rows(*pipe_data, stdin_data@, max_scrollback_lines),
            *pipe_data,
            palette@,
        ),
{
    process_bytes(pipe_data, stdin_data, palette, max_scrollback_lines)
}

} // verus!
