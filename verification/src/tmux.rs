//! What tmux needs: the configuration snippet, the version check, and line
//! ends that reset the column.

use vstd::prelude::*;
use vstd::string::StringExecFns;
use crate::decimal::{parse_unsigned, parse_unsigned_of};
use crate::lex::{index_of, trim, trimmed};
use crate::text::{chars_of, string_of, sub_vec};

verus! {

/// The lines for `tmux.conf` that bind a key to the scrollback viewer.
pub const CONF_SNIPPET: &'static str =
    "# kakoune-scrollback: view the scrollback of the current pane in Kakoune.\n\
# Needs tmux 3.3 or later.\n\
bind-key [ run-shell 'tmux display-popup -E -b none -T scrollback -w 100% -h 100% \
-e \"SCROLLBACK_PIPE_DATA=0:#{e|+|:#{cursor_x},1},#{e|+|:#{cursor_y},1}:#{pane_height},#{pane_width}\" \
\"tmux capture-pane -e -p -S - -t #{pane_id} | kakoune-scrollback --tmux-pane #{pane_id}\"'\n";

// ---------------------------------------------------------------------------
// Version
// ---------------------------------------------------------------------------

/// Whether a character has the Unicode property `Alphabetic`, as
/// `char::is_alphabetic` tells it.
pub uninterp spec fn is_alphabetic(c: char) -> bool;

/// `char::is_alphabetic` of the standard library.
#[verifier::external_body]
fn alphabetic(c: char) -> (b: bool)
    ensures
        b == is_alphabetic(c),
{
    c.is_alphabetic()
}

/// `s` without the alphabetic characters at its end.
pub open spec fn drop_letters_end(s: Seq<char>) -> Seq<char>
    decreases s.len(),
{
    if s.len() > 0 && is_alphabetic(s.last()) {
        drop_letters_end(s.drop_last())
    } else {
        s
    }
}

/// `s` without `tmux ` at its start, if it starts so.
pub open spec fn strip_tmux(s: Seq<char>) -> Seq<char> {
    if s.len() >= 5 && s.take(5) == "tmux "@ {
        s.skip(5)
    } else {
        s
    }
}

/// The text before the first dot.
pub open spec fn major_text(v: Seq<char>) -> Seq<char> {
    v.take(index_of(v, '.'))
}

/// The text between the first dot and the second, or `0` where there is no
/// dot.
pub open spec fn minor_text(v: Seq<char>) -> Seq<char> {
    let i = index_of(v, '.');
    if i < v.len() {
        let rest = v.skip(i + 1);
        rest.take(index_of(rest, '.'))
    } else {
        "0"@
    }
}

/// The number that a part of a version writes, or 0 where it writes none.
pub open spec fn part_value(s: Seq<char>) -> nat {
    match parse_unsigned(s, u32::MAX as nat) {
        Some(n) => n,
        None => 0,
    }
}

/// The version that the answer of `tmux -V` names, without `tmux ` before
/// it and whitespace around it.
pub open spec fn version_text(stdout: Seq<char>) -> Seq<char> {
    strip_tmux(trim(stdout))
}

/// Whether a version is 3.3 or later. Letters after the minor number, as in
/// `3.3a`, do not count.
pub open spec fn version_ok(v: Seq<char>) -> bool {
    let major = part_value(major_text(v));
    let minor = part_value(drop_letters_end(minor_text(v)));
    major > 3 || (major == 3 && minor >= 3)
}

/// The version of tmux is older than 3.3, or is none.
#[derive(Debug, Clone, PartialEq, Eq)]
pub struct VersionError {
    pub found: String,
}

/// The message of a version that is too old.
pub open spec fn version_message(found: Seq<char>) -> Seq<char> {
    "tmux 3.3 or later is required (found '"@ + found
        + "'). display-popup -b, -e, -T were added in tmux 3.3."@
}

impl VersionError {
    /// The message of the error.
    pub fn to_string(&self) -> (s: String)
        ensures
            s@ == version_message(self.found@),
    {
        let mut s = String::new();
        s.append("tmux 3.3 or later is required (found '");
        s.append(self.found.as_str());
        s.append("'). display-popup -b, -e, -T were added in tmux 3.3.");
        s
    }
}

fn without_tmux(t: &Vec<char>) -> (r: Vec<char>)
    ensures
        r@ == strip_tmux(t@),
{
    proof {
        reveal_strlit("tmux ");
    }
    if t.len() >= 5 && t[0] == 't' && t[1] == 'm' && t[2] == 'u' && t[3] == 'x' && t[4] == ' ' {
        assert(t@.take(5) =~= "tmux "@);
        sub_vec(t, 5, t.len())
    } else {
        proof {
            if t.len() >= 5 {
                assert(t@.take(5)[0] == t@[0]);
                assert(t@.take(5)[1] == t@[1]);
                assert(t@.take(5)[2] == t@[2]);
                assert(t@.take(5)[3] == t@[3]);
                assert(t@.take(5)[4] == t@[4]);
            }
        }
        sub_vec(t, 0, t.len())
    }
}

fn value_of(part: &Vec<char>) -> (n: usize)
    ensures
        n == part_value(part@),
{
    match parse_unsigned_of(part, 0xFFFF_FFFF) {
        Some(n) => n,
        None => 0,
    }
}

fn without_letters(part: &Vec<char>) -> (r: Vec<char>)
    ensures
        r@ == drop_letters_end(part@),
{
    let mut hi: usize = part.len();
    assert(part@.take(hi as int) =~= part@);
    while hi > 0 && alphabetic(part[hi - 1])
        invariant
            hi <= part.len(),
            drop_letters_end(part@) == drop_letters_end(part@.take(hi as int)),
        decreases hi,
    {
        assert(part@.take(hi as int).drop_last() =~= part@.take(hi - 1));
        hi -= 1;
    }
    sub_vec(part, 0, hi)
}

/// The end of the part that starts at `from`: the next dot, or the end.
fn part_end(v: &Vec<char>, from: usize) -> (i: usize)
    requires
        from <= v.len(),
    ensures
        from <= i <= v.len(),
        index_of(v@.skip(from as int), '.') == i - from,
{
    let mut i: usize = from;
    while i < v.len() && v[i] != '.'
        invariant
            from <= i <= v.len(),
            index_of(v@.skip(from as int), '.') == (i - from) + index_of(v@.skip(i as int), '.'),
        decreases v.len() - i,
    {
        assert(v@.skip(i as int).drop_first() =~= v@.skip(i + 1));
        i += 1;
    }
    i
}

/// Checks that the answer of `tmux -V` names version 3.3 or later. It may
/// read `tmux 3.3`, `tmux 3.3a` or `3.4`; a part that is no number counts as 0.
pub fn parse_version(stdout: &str) -> (r: Result<(), VersionError>)
    ensures
        match r {
            Ok(_) => version_ok(version_text(stdout@)),
            Err(e) => !version_ok(version_text(stdout@)) && e.found@ == version_text(stdout@),
        },
{
    let all = chars_of(stdout);
    let t = trimmed(&all);
    let v = without_tmux(&t);
    assert(v@.skip(0) =~= v@);
    let dot = part_end(&v, 0);
    let major_part = sub_vec(&v, 0, dot);
    let major = value_of(&major_part);
    let minor = if dot < v.len() {
        let end = part_end(&v, dot + 1);
        let minor_part = sub_vec(&v, dot + 1, end);
        assert(minor_part@ =~= minor_text(v@));
        value_of(&without_letters(&minor_part))
    } else {
        let zero = chars_of("0");
        value_of(&without_letters(&zero))
    };
    if major > 3 || (major == 3 && minor >= 3) {
        Ok(())
    } else {
        Err(VersionError { found: string_of(&v) })
    }
}

// ---------------------------------------------------------------------------
// Line ends
// ---------------------------------------------------------------------------

/// Whether the byte at `i` is a line feed without a carriage return before
/// it.
pub open spec fn is_bare_lf(s: Seq<u8>, i: int) -> bool {
    0 <= i < s.len() && s[i] == 0x0A && (i == 0 || s[i - 1] != 0x0D)
}

/// What the byte at `i` becomes: itself, with a carriage return before it if
/// it is a bare line feed.
pub open spec fn expand_at(s: Seq<u8>, i: int) -> Seq<u8> {
    if is_bare_lf(s, i) {
        seq![0x0Du8, 0x0Au8]
    } else {
        seq![s[i]]
    }
}

/// The bytes with a carriage return before every bare line feed.
pub open spec fn normalize(s: Seq<u8>) -> Seq<u8>
    decreases s.len(),
{
    if s.len() == 0 {
        s
    } else {
        normalize(s.drop_last()) + expand_at(s, s.len() - 1)
    }
}

/// No line feed stands without a carriage return before it.
pub open spec fn no_bare_lf(s: Seq<u8>) -> bool {
    forall|i: int| 0 <= i < s.len() ==> !is_bare_lf(s, i)
}

/// How many bare line feeds the bytes hold.
pub open spec fn bare_lfs(s: Seq<u8>) -> nat
    decreases s.len(),
{
    if s.len() == 0 {
        0
    } else {
        bare_lfs(s.drop_last()) + if is_bare_lf(s, s.len() - 1) {
            1nat
        } else {
            0nat
        }
    }
}

/// What the bytes from `from` on become.
pub open spec fn expand_from(s: Seq<u8>, from: int) -> Seq<u8>
    decreases s.len() - from,
{
    if 0 <= from < s.len() {
        expand_at(s, from) + expand_from(s, from + 1)
    } else {
        Seq::<u8>::empty()
    }
}

proof fn lemma_normalize_take(s: Seq<u8>, k: int)
    requires
        0 <= k < s.len(),
    ensures
        normalize(s.take(k + 1)) == normalize(s.take(k)) + expand_at(s, k),
        bare_lfs(s.take(k + 1)) == bare_lfs(s.take(k)) + if is_bare_lf(s, k) {
            1nat
        } else {
            0nat
        },
{
    let t = s.take(k + 1);
    assert(t.drop_last() =~= s.take(k));
}

/// What is normal of a prefix, then what the rest becomes, is what is normal
/// of the whole.
proof fn lemma_normalize_split(s: Seq<u8>, r: int)
    requires
        0 <= r <= s.len(),
    ensures
        normalize(s.take(r)) + expand_from(s, r) == normalize(s),
    decreases s.len() - r,
{
    if r == s.len() {
        assert(s.take(r) =~= s);
    } else {
        lemma_normalize_take(s, r);
        lemma_normalize_split(s, r + 1);
    }
}

/// What is normal of bytes is longer than they are by the number of their
/// bare line feeds, and ends as they end.
proof fn lemma_normalize_len(s: Seq<u8>)
    ensures
        normalize(s).len() == s.len() + bare_lfs(s),
        s.len() > 0 ==> normalize(s).len() > 0 && normalize(s).last() == s.last(),
        bare_lfs(s) <= s.len(),
    decreases s.len(),
{
    if s.len() > 0 {
        lemma_normalize_len(s.drop_last());
    }
}

/// Normalizing leaves no bare line feed.
pub proof fn lemma_normalize_no_bare_lf(s: Seq<u8>)
    ensures
        no_bare_lf(normalize(s)),
    decreases s.len(),
{
    if s.len() > 0 {
        let init = s.drop_last();
        lemma_normalize_no_bare_lf(init);
        let n = normalize(s);
        let m = normalize(init);
        assert forall|i: int| 0 <= i < n.len() implies !is_bare_lf(n, i) by {
            if i < m.len() {
                assert(!is_bare_lf(m, i));
            }
        }
    }
}

/// Bytes without a bare line feed are normal already.
pub proof fn lemma_normalize_fixed(s: Seq<u8>)
    requires
        no_bare_lf(s),
    ensures
        normalize(s) == s,
    decreases s.len(),
{
    if s.len() > 0 {
        let init = s.drop_last();
        assert forall|i: int| 0 <= i < init.len() implies !is_bare_lf(init, i) by {
            assert(!is_bare_lf(s, i));
        }
        lemma_normalize_fixed(init);
    }
}

/// Normalizing twice is normalizing once.
pub proof fn lemma_normalize_idempotent(s: Seq<u8>)
    ensures
        normalize(normalize(s)) == normalize(s),
{
    lemma_normalize_no_bare_lf(s);
    lemma_normalize_fixed(normalize(s));
}

proof fn lemma_no_bare_lfs(s: Seq<u8>)
    requires
        bare_lfs(s) == 0,
    ensures
        no_bare_lf(s),
    decreases s.len(),
{
    if s.len() > 0 {
        let init = s.drop_last();
        lemma_no_bare_lfs(init);
        assert forall|i: int| 0 <= i < s.len() implies !is_bare_lf(s, i) by {
            if i < init.len() {
                assert(!is_bare_lf(init, i));
            }
        }
    }
}

fn bare_lf_at(data: &Vec<u8>, i: usize) -> (b: bool)
    requires
        i < data.len(),
    ensures
        b == is_bare_lf(data@, i as int),
{
    data[i] == 0x0A && (i == 0 || data[i - 1] != 0x0D)
}

/// Puts a carriage return before every line feed that has none, so that a
/// terminal that reads the bytes starts each line in the first column. The
/// bare line feeds are counted, the buffer grows by their number once, and
/// the bytes move to their places from the end backwards.
pub fn normalize_capture(data: &mut Vec<u8>)
    ensures
        final(data)@ == normalize(old(data)@),
        final(data)@.len() == old(data)@.len() + bare_lfs(old(data)@),
        no_bare_lf(final(data)@),
{
    let ghost s = data@;
    let old_len = data.len();
    let mut count: usize = 0;
    let mut i: usize = 0;
    while i < old_len
        invariant
            i <= old_len == data.len(),
            data@ == s,
            count == bare_lfs(s.take(i as int)),
            count <= i,
        decreases old_len - i,
    {
        proof {
            lemma_normalize_take(s, i as int);
        }
        if bare_lf_at(data, i) {
            count += 1;
        }
        i += 1;
    }
    assert(s.take(old_len as int) =~= s);
    proof {
        lemma_normalize_no_bare_lf(s);
        lemma_normalize_len(s);
    }
    if count == 0 {
        proof {
            lemma_no_bare_lfs(s);
            lemma_normalize_fixed(s);
        }
        return ;
    }
    data.reserve(count);
    let mut grown: usize = 0;
    while grown < count
        invariant
            grown <= count,
            data.len() == old_len + grown,
            data@.take(old_len as int) == s,
        decreases count - grown,
    {
        data.push(0);
        grown += 1;
    }
    let new_len = data.len();
    let mut w: usize = new_len;
    let mut r: usize = old_len;
    while r > 0
        invariant
            r <= old_len == s.len(),
            new_len == data.len() == old_len + count,
            count == bare_lfs(s),
            w == r + bare_lfs(s.take(r as int)),
            w <= new_len,
            data@.take(r as int) == s.take(r as int),
            data@.subrange(w as int, new_len as int) == expand_from(s, r as int),
        decreases r,
    {
        proof {
            lemma_normalize_take(s, r - 1);
        }
        r -= 1;
        w -= 1;
        let bare = bare_lf_at(data, r);
        let b = data[r];
        data.set(w, b);
        if bare {
            w -= 1;
            data.set(w, 0x0D);
        }
    }
    proof {
        lemma_normalize_split(s, 0);
        assert(data@.subrange(0, new_len as int) =~= data@);
    }
}

} // verus!
