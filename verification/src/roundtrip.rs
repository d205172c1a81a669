//! A palette written down as the answer to a palette query reads back as
//! itself.

use vstd::prelude::*;
use crate::decimal::{decimal, lemma_decimal_round_trip};
use crate::lex::{index_of, lemma_index_of, lemma_index_of_is, trim};
use crate::palette::{
    apply_line,
    apply_lines,
    color_line,
    first_blank,
    hex_byte,
    parse_kitty_colors_spec,
    DEFAULT_PALETTE,
};
use crate::text::is_ascii_blank;

verus! {

/// The line that sets a slot to a colour: `color`, the slot's number, a
/// blank, and `#RRGGBB`.
pub open spec fn color_line_text(idx: int, rgb: (u8, u8, u8)) -> Seq<char> {
    "color"@ + decimal(idx as nat) + seq![' ', '#'] + hex_byte(rgb.0) + hex_byte(rgb.1) + hex_byte(
        rgb.2,
    )
}

/// The colour of a slot of a palette.
pub open spec fn slot(p: Seq<u8>, idx: int) -> (u8, u8, u8) {
    (p[idx * 3], p[idx * 3 + 1], p[idx * 3 + 2])
}

/// The lines that set the slots from `from` to 15 to what `p` holds there,
/// each with its line feed.
pub open spec fn palette_text(p: Seq<u8>, from: int) -> Seq<char>
    decreases 16 - from,
{
    if 0 <= from < 16 {
        color_line_text(from, slot(p, from)) + seq!['\n'] + palette_text(p, from + 1)
    } else {
        Seq::<char>::empty()
    }
}

/// `q` with the slots from `from` on as in `p`.
pub open spec fn with_slots_from(q: Seq<u8>, p: Seq<u8>, from: int) -> Seq<u8> {
    Seq::new(
        48,
        |i: int|
            if i >= from * 3 {
                p[i]
            } else {
                q[i]
            },
    )
}

proof fn lemma_first_blank_is(s: Seq<char>, i: int)
    requires
        0 <= i <= s.len(),
        i < s.len() ==> is_ascii_blank(s[i]),
        forall|j: int| 0 <= j < i ==> !is_ascii_blank(#[trigger] s[j]),
    ensures
        first_blank(s) == i,
    decreases s.len(),
{
    if s.len() > 0 && i > 0 {
        let t = s.drop_first();
        assert forall|j: int| 0 <= j < i - 1 implies !is_ascii_blank(#[trigger] t[j]) by {}
        lemma_first_blank_is(t, i - 1);
    }
}

/// What a line that `color_line_text` writes sets.
proof fn lemma_color_line_text(idx: int, rgb: (u8, u8, u8))
    requires
        0 <= idx <= 15,
    ensures
        color_line(trim(color_line_text(idx, rgb))) == Some((idx, rgb)),
        index_of(color_line_text(idx, rgb), '\n') == color_line_text(idx, rgb).len(),
{
    reveal_strlit("color");
    let digits = decimal(idx as nat);
    let line = color_line_text(idx, rgb);
    lemma_decimal_round_trip(idx as nat);
    let n = digits.len() as int;
    lemma_index_of_is(line, '\n', line.len() as int);
    assert(line.take(5) =~= "color"@);
    let rest = line.skip(5);
    lemma_first_blank_is(rest, n);
    assert(rest.take(n) =~= digits);
}

/// Reading a line, a line feed and more text is reading the line and then
/// the text.
proof fn lemma_apply_lines_step(q: Seq<u8>, line: Seq<char>, more: Seq<char>)
    requires
        index_of(line, '\n') == line.len(),
    ensures
        apply_lines(q, line + seq!['\n'] + more) == apply_lines(apply_line(q, line), more),
{
    let s = line + seq!['\n'] + more;
    let n = line.len() as int;
    lemma_index_of(line, '\n');
    lemma_index_of_is(s, '\n', n);
    assert(s.take(n) =~= line);
    assert(s.skip(n + 1) =~= more);
}

proof fn lemma_palette_text(q: Seq<u8>, p: Seq<u8>, from: int)
    requires
        q.len() == 48,
        p.len() == 48,
        0 <= from <= 16,
    ensures
        apply_lines(q, palette_text(p, from)) == with_slots_from(q, p, from),
    decreases 16 - from,
{
    if from < 16 {
        let line = color_line_text(from, slot(p, from));
        lemma_color_line_text(from, slot(p, from));
        lemma_apply_lines_step(q, line, palette_text(p, from + 1));
        let next = apply_line(q, line);
        lemma_palette_text(next, p, from + 1);
    }
}

/// Reading an empty answer gives the default palette.
pub proof fn lemma_empty_answer()
    ensures
        parse_kitty_colors_spec(Seq::<char>::empty()) == DEFAULT_PALETTE@,
{
}

/// Reading the sixteen lines that write a palette down gives that palette.
pub proof fn lemma_palette_round_trip(p: Seq<u8>)
    requires
        p.len() == 48,
    ensures
        parse_kitty_colors_spec(palette_text(p, 0)) == p,
{
    lemma_palette_text(DEFAULT_PALETTE@, p, 0);
}

} // verus!
