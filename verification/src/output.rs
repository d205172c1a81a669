//! The three texts that the editor loads: the buffer, the script that lays
//! the spans over it, and the script that sets the buffer up.

use vstd::prelude::*;
use vstd::string::StringExecFns;
use crate::cli::TargetId;
use crate::decimal::{decimal, push_decimal};
use crate::model::{screen_ok, LineView, ScreenView, SpanView};
use crate::terminal::{span_views, ProcessedScreen, Span};
use crate::text::{byte_len, chars_of, push_char, utf8_len};

verus! {

// ---------------------------------------------------------------------------
// Escapes
// ---------------------------------------------------------------------------

/// `s` with `with` in the place of every `c`.
pub open spec fn replace_char(s: Seq<char>, c: char, with: Seq<char>) -> Seq<char>
    decreases s.len(),
{
    if s.len() == 0 {
        s
    } else if s.last() == c {
        replace_char(s.drop_last(), c, with) + with
    } else {
        replace_char(s.drop_last(), c, with).push(s.last())
    }
}

/// A text for the editor's single-quoted strings: every `'` doubled.
pub open spec fn kak_quoted(s: Seq<char>) -> Seq<char> {
    replace_char(s, '\'', "''"@)
}

/// A text for the shell's single-quoted strings: every `'` as `'\''`.
pub open spec fn shell_quoted(s: Seq<char>) -> Seq<char> {
    replace_char(s, '\'', "'\\''"@)
}

/// A face for a list of ranges: `\` as `\\`, then `|` as `\|`, then `'` as
/// `''`.
pub open spec fn face_escaped(s: Seq<char>) -> Seq<char> {
    replace_char(replace_char(replace_char(s, '\\', "\\\\"@), '|', "\\|"@), '\'', "''"@)
}

fn replaced(s: &str, c: char, with: &str) -> (r: String)
    ensures
        r@ == replace_char(s@, c, with@),
{
    let chars = chars_of(s);
    let mut r = String::new();
    let mut i: usize = 0;
    while i < chars.len()
        invariant
            i <= chars.len(),
            chars@ == s@,
            r@ == replace_char(chars@.take(i as int), c, with@),
        decreases chars.len() - i,
    {
        assert(chars@.take(i + 1).drop_last() =~= chars@.take(i as int));
        if chars[i] == c {
            r.append(with);
        } else {
            push_char(&mut r, chars[i]);
        }
        i += 1;
    }
    assert(chars@.take(chars.len() as int) =~= chars@);
    r
}

/// Escapes a text for a single-quoted string of the editor.
pub fn escape_kak_single_quote(s: &str) -> (r: String)
    ensures
        r@ == kak_quoted(s@),
{
    replaced(s, '\'', "''")
}

/// Escapes a text for a single-quoted string of a POSIX shell.
pub fn escape_shell_single_quote(s: &str) -> (r: String)
    ensures
        r@ == shell_quoted(s@),
{
    replaced(s, '\'', "'\\''")
}

/// Escapes a face for a list of ranges.
pub fn escape_face(face: &str) -> (r: String)
    ensures
        r@ == face_escaped(face@),
{
    let a = replaced(face, '\\', "\\\\");
    let b = replaced(a.as_str(), '|', "\\|");
    replaced(b.as_str(), '\'', "''")
}

/// The argument that makes the editor load the set-up script.
pub open spec fn source_command_spec(init_path: Seq<char>) -> Seq<char> {
    "source '"@ + kak_quoted(init_path) + "'"@
}

/// The command with which the editor loads the set-up script at `init_path`.
pub fn source_command(init_path: &str) -> (r: String)
    ensures
        r@ == source_command_spec(init_path@),
{
    let mut r = String::from_str("source '");
    r.append(escape_kak_single_quote(init_path).as_str());
    r.append("'");
    r
}

// ---------------------------------------------------------------------------
// The buffer
// ---------------------------------------------------------------------------

/// The text of the buffer: every line followed by a line feed.
pub open spec fn buffer_text(lines: Seq<LineView>) -> Seq<char>
    decreases lines.len(),
{
    if lines.len() == 0 {
        Seq::<char>::empty()
    } else {
        buffer_text(lines.drop_last()) + lines.last().text + seq!['\n']
    }
}

/// The text of the buffer: the lines in order, a line feed after each. An
/// empty screen gives an empty text.
pub fn render_text(screen: &ProcessedScreen) -> (r: String)
    ensures
        r@ == buffer_text(screen@.lines),
{
    let ghost lines = screen@.lines;
    let mut r = String::new();
    let mut i: usize = 0;
    while i < screen.lines.len()
        invariant
            i <= screen.lines.len(),
            lines == screen@.lines,
            r@ == buffer_text(lines.take(i as int)),
        decreases screen.lines.len() - i,
    {
        assert(lines.take(i + 1).drop_last() =~= lines.take(i as int));
        r.append(screen.lines[i].text.as_str());
        push_char(&mut r, '\n');
        i += 1;
    }
    assert(lines.take(screen.lines.len() as int) =~= lines);
    r
}

// ---------------------------------------------------------------------------
// The ranges
// ---------------------------------------------------------------------------

/// A command of the ranges script is kept below this many bytes where that
/// can be done.
pub const MAX_CHUNK_SIZE: usize = 900_000;

/// How the first command of the ranges script starts.
pub open spec fn first_command() -> Seq<char> {
    "set-option buffer scrollback_colors %val{timestamp}"@
}

/// How every further command of the ranges script starts.
pub open spec fn next_command() -> Seq<char> {
    "set-option -add buffer scrollback_colors"@
}

/// A span as the editor reads it: `'line.start,line.end|face'`, with the
/// offset of the span's last byte as its end.
pub open spec fn range_entry(line: nat, span: SpanView) -> Seq<char> {
    "'"@ + decimal(line) + "."@ + decimal(span.start) + ","@ + decimal(line) + "."@ + decimal(
        (span.end - 1) as nat,
    ) + "|"@ + face_escaped(span.face) + "'"@
}

/// The script so far: the commands that are complete, each with its line
/// feed, and the command that still takes entries.
pub struct Chunks {
    pub done: Seq<char>,
    pub chunk: Seq<char>,
    pub has_entries: bool,
}

/// Before the first entry.
pub open spec fn no_chunks() -> Chunks {
    Chunks { done: Seq::<char>::empty(), chunk: first_command(), has_entries: false }
}

/// Adds an entry. A command that holds an entry and would grow beyond
/// `MAX_CHUNK_SIZE` bytes with this one is complete, and the entry starts the
/// next command.
pub open spec fn add_entry(c: Chunks, entry: Seq<char>) -> Chunks {
    if utf8_len(c.chunk) + 1 + utf8_len(entry) > MAX_CHUNK_SIZE && c.has_entries {
        Chunks {
            done: c.done + c.chunk + seq!['\n'],
            chunk: next_command() + seq![' '] + entry,
            has_entries: true,
        }
    } else {
        Chunks { done: c.done, chunk: c.chunk + seq![' '] + entry, has_entries: true }
    }
}

/// Adds the first `n` spans of a line.
pub open spec fn add_spans(c: Chunks, line: nat, spans: Seq<SpanView>, n: nat) -> Chunks
    decreases n,
{
    if n == 0 || n > spans.len() {
        c
    } else {
        add_entry(add_spans(c, line, spans, (n - 1) as nat), range_entry(line, spans[n - 1]))
    }
}

/// Adds the spans of the first `n` lines, which count from one.
pub open spec fn add_lines(c: Chunks, lines: Seq<LineView>, n: nat) -> Chunks
    decreases n,
{
    if n == 0 || n > lines.len() {
        c
    } else {
        add_spans(
            add_lines(c, lines, (n - 1) as nat),
            n,
            lines[n - 1].spans,
            lines[n - 1].spans.len(),
        )
    }
}

/// The script once the last entry is in: empty where there was no entry.
pub open spec fn chunks_text(c: Chunks) -> Seq<char> {
    if c.has_entries {
        c.done + c.chunk + seq!['\n']
    } else {
        Seq::<char>::empty()
    }
}

/// The ranges script of a screen: `set-option` commands that list every span
/// of every line, in order.
pub open spec fn ranges_script(s: ScreenView) -> Seq<char> {
    chunks_text(add_lines(no_chunks(), s.lines, s.lines.len()))
}

/// Whether the three parts are those of `c`.
pub open spec fn is_chunks(done: Seq<char>, chunk: Seq<char>, has_entries: bool, c: Chunks) -> bool {
    done == c.done && chunk == c.chunk && has_entries == c.has_entries
}

/// Every span holds at least one byte.
pub open spec fn spans_hold_bytes(lines: Seq<LineView>) -> bool {
    forall|i: int, k: int|
        0 <= i < lines.len() && 0 <= k < lines[i].spans.len() ==> (#[trigger] lines[i].spans[k]).start
            < lines[i].spans[k].end
}

/// The spans of a well-formed screen hold bytes.
pub proof fn lemma_spans_hold_bytes(s: ScreenView)
    requires
        screen_ok(s),
    ensures
        spans_hold_bytes(s.lines),
{
}

/// Whether every span of the screen holds at least one byte.
pub fn has_spans_with_bytes(screen: &ProcessedScreen) -> (b: bool)
    ensures
        b == spans_hold_bytes(screen@.lines),
{
    let ghost lines = screen@.lines;
    let mut i: usize = 0;
    while i < screen.lines.len()
        invariant
            i <= screen.lines.len(),
            lines == screen@.lines,
            forall|a: int, k: int|
                0 <= a < i && 0 <= k < lines[a].spans.len() ==> (#[trigger] lines[a].spans[k]).start
                    < lines[a].spans[k].end,
        decreases screen.lines.len() - i,
    {
        let line = &screen.lines[i];
        let mut k: usize = 0;
        while k < line.spans.len()
            invariant
                k <= line.spans.len(),
                i < lines.len(),
                lines == screen@.lines,
                lines[i as int].spans == span_views(line.spans@),
                forall|j: int|
                    0 <= j < k ==> (#[trigger] lines[i as int].spans[j]).start
                        < lines[i as int].spans[j].end,
            decreases line.spans.len() - k,
        {
            assert(lines[i as int].spans[k as int] == line.spans[k as int]@);
            if line.spans[k].start_byte >= line.spans[k].end_byte {
                return false;
            }
            k += 1;
        }
        i += 1;
    }
    true
}

fn range_entry_of(line_num: usize, span: &Span) -> (r: String)
    requires
        span.start_byte < span.end_byte,
    ensures
        r@ == range_entry(line_num as nat, span@),
{
    let mut r = String::from_str("'");
    push_decimal(&mut r, line_num);
    r.append(".");
    push_decimal(&mut r, span.start_byte);
    r.append(",");
    push_decimal(&mut r, line_num);
    r.append(".");
    push_decimal(&mut r, span.end_byte - 1);
    r.append("|");
    r.append(escape_face(span.face.as_str()).as_str());
    r.append("'");
    r
}

/// The ranges script: every span as `'line.start,line.end|face'`, in
/// `set-option` commands of at most about 900 KB each. A screen without a span
/// gives an empty script.
pub fn render_ranges(screen: &ProcessedScreen) -> (r: String)
    requires
        spans_hold_bytes(screen@.lines),
    ensures
        r@ == ranges_script(screen@),
{
    let ghost lines = screen@.lines;
    let mut done = String::new();
    let mut chunk = String::from_str("set-option buffer scrollback_colors %val{timestamp}");
    let mut chunk_has_entries = false;
    let mut line_idx: usize = 0;
    while line_idx < screen.lines.len()
        invariant
            line_idx <= screen.lines.len(),
            lines == screen@.lines,
            spans_hold_bytes(lines),
            is_chunks(
                done@,
                chunk@,
                chunk_has_entries,
                add_lines(no_chunks(), lines, line_idx as nat),
            ),
        decreases screen.lines.len() - line_idx,
    {
        let line = &screen.lines[line_idx];
        let line_num = line_idx + 1;
        let ghost before = add_lines(no_chunks(), lines, line_idx as nat);
        let ghost spans = lines[line_idx as int].spans;
        let mut k: usize = 0;
        while k < line.spans.len()
            invariant
                k <= line.spans.len(),
                spans == span_views(line.spans@),
                spans == lines[line_idx as int].spans,
                line_idx < lines.len(),
                spans_hold_bytes(lines),
                is_chunks(
                    done@,
                    chunk@,
                    chunk_has_entries,
                    add_spans(before, line_num as nat, spans, k as nat),
                ),
            decreases line.spans.len() - k,
        {
            let span = &line.spans[k];
            let ghost next = add_spans(before, line_num as nat, spans, (k + 1) as nat);
            let entry = range_entry_of(line_num, span);
            let chunk_len = byte_len(chunk.as_str());
            let entry_len = byte_len(entry.as_str());
            if chunk_has_entries && (entry_len >= MAX_CHUNK_SIZE || chunk_len >= MAX_CHUNK_SIZE
                - entry_len) {
                done.append(chunk.as_str());
                push_char(&mut done, '\n');
                chunk = String::from_str("set-option -add buffer scrollback_colors");
            }
            push_char(&mut chunk, ' ');
            chunk.append(entry.as_str());
            chunk_has_entries = true;
            assert(done@ =~= next.done);
            assert(chunk@ =~= next.chunk);
            k += 1;
        }
        line_idx += 1;
    }
    if chunk_has_entries {
        done.append(chunk.as_str());
        push_char(&mut done, '\n');
        done
    } else {
        String::new()
    }
}

// ---------------------------------------------------------------------------
// The set-up script
// ---------------------------------------------------------------------------

/// The options that tell the editor's side which terminal the scrollback is
/// of.
pub open spec fn target_options(target: TargetId) -> Seq<char> {
    match target {
        TargetId::Kitty(w) => "set-option global scrollback_backend 'kitty'\n"@
            + "set-option global scrollback_kitty_window_id '"@ + decimal(w.value() as nat)
            + "'\n\n"@,
        TargetId::Tmux(pane) => "set-option global scrollback_backend 'tmux'\n"@
            + "set-option global scrollback_tmux_pane_id '"@ + kak_quoted(pane@) + "'\n\n"@,
    }
}

/// The settings of the buffer: it cannot be written, and it knows its scratch
/// directory.
pub open spec fn buffer_options(tmp_dir: Seq<char>) -> Seq<char> {
    "set-option buffer readonly true\n"@ + "set-option buffer scrollback_tmp_dir '"@ + kak_quoted(
        tmp_dir,
    ) + "'\n\n"@
}

/// The spans: their option, the highlighter that shows it, and the script
/// that fills it.
pub open spec fn ranges_setup(ranges_path: Seq<char>) -> Seq<char> {
    "declare-option -hidden range-specs scrollback_colors\n"@
        + "add-highlighter buffer/ ranges scrollback_colors\n"@ + "source '"@ + kak_quoted(
        ranges_path,
    ) + "'\n"@ + "update-option buffer scrollback_colors\n\n"@
}

/// The command that selects one byte of the buffer.
pub open spec fn select_command(line: nat, col: nat) -> Seq<char> {
    "select "@ + decimal(line) + "."@ + decimal(col) + ","@ + decimal(line) + "."@ + decimal(col)
        + "\n"@
}

/// The cursor and the view. The cursor is placed; the view moves so that the
/// line that was the first of the live view is its first, which takes the
/// selection there; and the cursor is placed again.
pub open spec fn cursor_setup(s: ScreenView) -> Seq<char> {
    select_command(s.cursor_line, s.cursor_col) + select_command(s.viewport_top, 1)
        + "execute-keys vt\n"@ + select_command(s.cursor_line, s.cursor_col) + "\n"@
}

/// The key maps of the viewer.
pub open spec fn keymaps_setup() -> Seq<char> {
    "kakoune-scrollback-setup-keymaps\n\n"@
}

/// The hook that removes the scratch directory when the last client closes.
pub open spec fn cleanup_hook(tmp_dir: Seq<char>) -> Seq<char> {
    "hook -always global ClientClose .* %{\n"@ + "    evaluate-commands %sh{\n"@
        + "        if [ -d '"@ + shell_quoted(tmp_dir)
        + "' ] && [ \"$(printf '%s' \"$kak_client_list\" | wc -w)\" -le 1 ]; then\n"@
        + "            rm -rf -- '"@ + shell_quoted(tmp_dir) + "'\n"@ + "        fi\n"@ + "    }\n"@
        + "}\n"@
}

/// The set-up script: the target, the buffer's settings, the spans, the
/// cursor and the view, the key maps, and the hook that cleans up.
pub open spec fn init_script(
    s: ScreenView,
    target: TargetId,
    tmp_dir: Seq<char>,
    ranges_path: Seq<char>,
) -> Seq<char> {
    target_options(target) + buffer_options(tmp_dir) + ranges_setup(ranges_path) + cursor_setup(s)
        + keymaps_setup() + cleanup_hook(tmp_dir)
}

fn push_target_options(s: &mut String, target: &TargetId)
    ensures
        final(s)@ == old(s)@ + target_options(*target),
{
    match target {
        TargetId::Kitty(w) => {
            s.append("set-option global scrollback_backend 'kitty'\n");
            s.append("set-option global scrollback_kitty_window_id '");
            push_decimal(s, w.get() as usize);
            s.append("'\n\n");
        },
        TargetId::Tmux(pane) => {
            s.append("set-option global scrollback_backend 'tmux'\n");
            s.append("set-option global scrollback_tmux_pane_id '");
            s.append(escape_kak_single_quote(pane.as_str()).as_str());
            s.append("'\n\n");
        },
    }
}

fn push_buffer_options(s: &mut String, tmp_dir: &str)
    ensures
        final(s)@ == old(s)@ + buffer_options(tmp_dir@),
{
    s.append("set-option buffer readonly true\n");
    s.append("set-option buffer scrollback_tmp_dir '");
    s.append(escape_kak_single_quote(tmp_dir).as_str());
    s.append("'\n\n");
}

fn push_ranges_setup(s: &mut String, ranges_path: &str)
    ensures
        final(s)@ == old(s)@ + ranges_setup(ranges_path@),
{
    s.append("declare-option -hidden range-specs scrollback_colors\n");
    s.append("add-highlighter buffer/ ranges scrollback_colors\n");
    s.append("source '");
    s.append(escape_kak_single_quote(ranges_path).as_str());
    s.append("'\n");
    s.append("update-option buffer scrollback_colors\n\n");
}

fn push_select(s: &mut String, line: usize, col: usize)
    ensures
        final(s)@ == old(s)@ + select_command(line as nat, col as nat),
{
    s.append("select ");
    push_decimal(s, line);
    s.append(".");
    push_decimal(s, col);
    s.append(",");
    push_decimal(s, line);
    s.append(".");
    push_decimal(s, col);
    s.append("\n");
}

fn push_cursor_setup(s: &mut String, screen: &ProcessedScreen)
    ensures
        final(s)@ == old(s)@ + cursor_setup(screen@),
{
    push_select(s, screen.cursor.line, screen.cursor.col);
    push_select(s, screen.viewport_top, 1);
    s.append("execute-keys vt\n");
    push_select(s, screen.cursor.line, screen.cursor.col);
    s.append("\n");
}

fn push_cleanup_hook(s: &mut String, tmp_dir: &str)
    ensures
        final(s)@ == old(s)@ + cleanup_hook(tmp_dir@),
{
    let quoted = escape_shell_single_quote(tmp_dir);
    s.append("hook -always global ClientClose .* %{\n");
    s.append("    evaluate-commands %sh{\n");
    s.append("        if [ -d '");
    s.append(quoted.as_str());
    s.append("' ] && [ \"$(printf '%s' \"$kak_client_list\" | wc -w)\" -le 1 ]; then\n");
    s.append("            rm -rf -- '");
    s.append(quoted.as_str());
    s.append("'\n");
    s.append("        fi\n");
    s.append("    }\n");
    s.append("}\n");
}

/// The set-up script of a screen. `tmp_dir` is the scratch directory and
/// `ranges_path` the place of the ranges script; both are escaped for the
/// strings they stand in.
pub fn render_init_kak(
    screen: &ProcessedScreen,
    target: &TargetId,
    tmp_dir: &str,
    ranges_path: &str,
) -> (r: String)
    ensures
        r@ == init_script(screen@, *target, tmp_dir@, ranges_path@),
{
    let mut r = String::new();
    push_target_options(&mut r, target);
    push_buffer_options(&mut r, tmp_dir);
    push_ranges_setup(&mut r, ranges_path);
    push_cursor_setup(&mut r, screen);
    r.append("kakoune-scrollback-setup-keymaps\n\n");
    push_cleanup_hook(&mut r, tmp_dir);
    r
}

} // verus!
