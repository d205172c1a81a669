//! The 16-colour palette: its default, how a colour resolves through it, and
//! the reader of the terminal's answer to a palette query.

use vstd::prelude::*;
use vstd::string::StringExecFns;
use crate::decimal::{parse_digits, parse_digits_of};
use crate::lex::{index_of, skip_spaces, trim, trimmed};
use crate::text::{
    chars_of,
    digit_of,
    is_ascii_blank,
    is_ascii_blank_char,
    is_space_char,
    push_char,
    sub_vec,
};

verus! {

/// Default ANSI palette: colours 0 to 15, three bytes each.
pub const DEFAULT_PALETTE: [u8; 48] = [
    0x00, 0x00, 0x00,
    0xCC, 0x00, 0x00,
    0x00, 0xCC, 0x00,
    0xCC, 0xCC, 0x00,
    0x00, 0x00, 0xCC,
    0xCC, 0x00, 0xCC,
    0x00, 0xCC, 0xCC,
    0xCC, 0xCC, 0xCC,
    0x66, 0x66, 0x66,
    0xFF, 0x00, 0x00,
    0x00, 0xFF, 0x00,
    0xFF, 0xFF, 0x00,
    0x00, 0x00, 0xFF,
    0xFF, 0x00, 0xFF,
    0x00, 0xFF, 0xFF,
    0xFF, 0xFF, 0xFF,
];

/// The colour of a cell's foreground or background.
#[derive(Debug, Clone, Copy, PartialEq, Eq, Structural)]
pub enum Color {
    /// The terminal's default.
    Default,
    /// A direct colour.
    Rgb { r: u8, g: u8, b: u8 },
    /// One of the 256 indexed colours.
    Indexed { idx: u8 },
}

// ---------------------------------------------------------------------------
// Resolution
// ---------------------------------------------------------------------------

/// The intensity of a channel of the 6x6x6 cube.
pub open spec fn cube_level(c: int) -> int {
    if c == 0 {
        0
    } else {
        55 + 40 * c
    }
}

/// The colour of an index above the palette: the cube for 16 to 231, the
/// grey ramp from 232 on.
pub open spec fn idx_rgb(idx: u8) -> (u8, u8, u8)
    recommends
        idx >= 16,
{
    if idx < 232 {
        let i = idx - 16;
        (cube_level(i / 36) as u8, cube_level((i % 36) / 6) as u8, cube_level(i % 6) as u8)
    } else {
        let v = (8 + 10 * (idx - 232)) as u8;
        (v, v, v)
    }
}

/// What a colour resolves to with a palette: nothing for the default, the
/// triple itself for a direct colour, the palette's entry for an index below
/// 16 and the fixed colour of the index otherwise.
pub open spec fn resolve(color: Color, palette: Seq<u8>) -> Option<(u8, u8, u8)>
    recommends
        palette.len() == 48,
{
    match color {
        Color::Default => None,
        Color::Rgb { r, g, b } => Some((r, g, b)),
        Color::Indexed { idx } => if idx < 16 {
            Some((palette[idx * 3], palette[idx * 3 + 1], palette[idx * 3 + 2]))
        } else {
            Some(idx_rgb(idx))
        },
    }
}

fn cube_channel(c: u8) -> (v: u8)
    requires
        c < 6,
    ensures
        v == cube_level(c as int),
{
    if c == 0 {
        0
    } else {
        55 + 40 * c
    }
}

/// The colour of an indexed colour that the palette does not hold.
pub fn idx_to_rgb(idx: u8) -> (rgb: (u8, u8, u8))
    requires
        idx >= 16,
    ensures
        rgb == idx_rgb(idx),
{
    if idx < 232 {
        let i: u8 = idx - 16;
        (cube_channel(i / 36), cube_channel((i % 36) / 6), cube_channel(i % 6))
    } else {
        let v: u8 = 8 + 10 * (idx - 232);
        (v, v, v)
    }
}

fn resolve_color(color: Color, palette: &[u8; 48]) -> (r: Option<(u8, u8, u8)>)
    ensures
        r == resolve(color, palette@),
{
    match color {
        Color::Default => None,
        Color::Rgb { r, g, b } => Some((r, g, b)),
        Color::Indexed { idx } => {
            if idx < 16 {
                let base: usize = idx as usize * 3;
                Some((palette[base], palette[base + 1], palette[base + 2]))
            } else {
                Some(idx_to_rgb(idx))
            }
        },
    }
}

/// Resolves a colour to its red, green and blue. `None` for the default.
pub fn color_to_rgb(color: Color, palette: &[u8; 48]) -> (r: Option<[u8; 3]>)
    ensures
        match r {
            Some(a) => resolve(color, palette@) == Some((a@[0], a@[1], a@[2])),
            None => resolve(color, palette@) is None,
        },
{
    match resolve_color(color, palette) {
        Some((r, g, b)) => Some([r, g, b]),
        None => None,
    }
}

// ---------------------------------------------------------------------------
// Colour tokens
// ---------------------------------------------------------------------------

/// The upper-case hexadecimal digit of a value below 16.
pub open spec fn hex_digit_upper(d: int) -> char
    recommends
        0 <= d < 16,
{
    if d < 10 {
        digit_of(d as nat)
    } else {
        (55 + d) as u32 as char
    }
}

/// The two upper-case hexadecimal digits of a byte.
pub open spec fn hex_byte(b: u8) -> Seq<char> {
    seq![hex_digit_upper(b as int / 16), hex_digit_upper(b as int % 16)]
}

/// `rgb:RRGGBB`, the name of a colour in a face.
pub open spec fn rgb_token(rgb: (u8, u8, u8)) -> Seq<char> {
    "rgb:"@ + hex_byte(rgb.0) + hex_byte(rgb.1) + hex_byte(rgb.2)
}

fn hex_char(d: u8) -> (c: char)
    requires
        d < 16,
    ensures
        c == hex_digit_upper(d as int),
{
    if d < 10 {
        (48u8 + d) as char
    } else {
        (55u8 + d) as char
    }
}

/// Appends the two upper-case hexadecimal digits of a byte.
pub fn push_hex_byte(s: &mut String, b: u8)
    ensures
        final(s)@ == old(s)@ + hex_byte(b),
{
    push_char(s, hex_char(b / 16));
    push_char(s, hex_char(b % 16));
}

/// Appends `rgb:RRGGBB`.
pub fn push_rgb_token(s: &mut String, rgb: (u8, u8, u8))
    ensures
        final(s)@ == old(s)@ + rgb_token(rgb),
{
    s.append("rgb:");
    push_hex_byte(s, rgb.0);
    push_hex_byte(s, rgb.1);
    push_hex_byte(s, rgb.2);
}

/// The name of a colour in a face: `rgb:RRGGBB` in upper case, or `None` for
/// the default.
pub fn color_to_kak(color: Color, palette: &[u8; 48]) -> (r: Option<String>)
    ensures
        match r {
            Some(s) => resolve(color, palette@) is Some && s@ == rgb_token(
                resolve(color, palette@)->0,
            ),
            None => resolve(color, palette@) is None,
        },
{
    match resolve_color(color, palette) {
        Some(rgb) => {
            let mut s = String::new();
            push_rgb_token(&mut s, rgb);
            Some(s)
        },
        None => None,
    }
}

// ---------------------------------------------------------------------------
// The answer to a palette query
// ---------------------------------------------------------------------------

/// The value of a hexadecimal digit of either case.
pub open spec fn hex_value(c: char) -> Option<int> {
    if '0' <= c && c <= '9' {
        Some(c as u32 - 48)
    } else if 'a' <= c && c <= 'f' {
        Some(c as u32 - 87)
    } else if 'A' <= c && c <= 'F' {
        Some(c as u32 - 55)
    } else {
        None
    }
}

/// The position of the first ASCII whitespace in `s`, or its length.
pub open spec fn first_blank(s: Seq<char>) -> int
    decreases s.len(),
{
    if s.len() == 0 {
        0
    } else if is_ascii_blank(s[0]) {
        0
    } else {
        1 + first_blank(s.drop_first())
    }
}

/// The colour that `#RGB` or `#RRGGBB` writes. In the short form each digit
/// stands for itself twice.
pub open spec fn hex_color(h: Seq<char>) -> Option<(u8, u8, u8)> {
    if h.len() == 7 && h[0] == '#' && hex_value(h[1]) is Some && hex_value(h[2]) is Some
        && hex_value(h[3]) is Some && hex_value(h[4]) is Some && hex_value(h[5]) is Some
        && hex_value(h[6]) is Some {
        Some(
            (
                (hex_value(h[1])->0 * 16 + hex_value(h[2])->0) as u8,
                (hex_value(h[3])->0 * 16 + hex_value(h[4])->0) as u8,
                (hex_value(h[5])->0 * 16 + hex_value(h[6])->0) as u8,
            ),
        )
    } else if h.len() == 4 && h[0] == '#' && hex_value(h[1]) is Some && hex_value(h[2]) is Some
        && hex_value(h[3]) is Some {
        Some(
            (
                (hex_value(h[1])->0 * 17) as u8,
                (hex_value(h[2])->0 * 17) as u8,
                (hex_value(h[3])->0 * 17) as u8,
            ),
        )
    } else {
        None
    }
}

/// What a trimmed line sets: the slot and its colour, if the line is `color`,
/// the slot's number in digits (at most 15), ASCII whitespace, maybe more
/// whitespace, and a colour as `hex_color` reads it, up to the line's end.
pub open spec fn color_line(t: Seq<char>) -> Option<(int, (u8, u8, u8))> {
    if t.len() >= 5 && t.take(5) == "color"@ {
        let rest = t.skip(5);
        let k = first_blank(rest);
        if k < rest.len() {
            match parse_digits(rest.take(k), 255) {
                Some(idx) => if idx <= 15 {
                    match hex_color(skip_spaces(rest.skip(k + 1))) {
                        Some(rgb) => Some((idx as int, rgb)),
                        None => None,
                    }
                } else {
                    None
                },
                None => None,
            }
        } else {
            None
        }
    } else {
        None
    }
}

/// The palette after a line of the answer. A line that sets nothing leaves it
/// as it is.
pub open spec fn apply_line(palette: Seq<u8>, line: Seq<char>) -> Seq<u8> {
    match color_line(trim(line)) {
        Some((idx, rgb)) => palette.update(idx * 3, rgb.0).update(idx * 3 + 1, rgb.1).update(
            idx * 3 + 2,
            rgb.2,
        ),
        None => palette,
    }
}

/// The palette after every line of `s`, the lines taken in order.
pub open spec fn apply_lines(palette: Seq<u8>, s: Seq<char>) -> Seq<u8>
    decreases s.len(),
{
    let i = index_of(s, '\n');
    let next = apply_line(palette, s.take(i));
    if 0 <= i && i < s.len() {
        apply_lines(next, s.skip(i + 1))
    } else {
        next
    }
}

/// The palette that an answer to a palette query describes: the default
/// palette with the slots that its lines set.
pub open spec fn parse_kitty_colors_spec(s: Seq<char>) -> Seq<u8> {
    apply_lines(DEFAULT_PALETTE@, s)
}

fn hex_digit_value(c: char) -> (r: Option<u8>)
    ensures
        match r {
            Some(d) => hex_value(c) == Some(d as int) && d < 16,
            None => hex_value(c) is None,
        },
{
    let u: u32 = c as u32;
    if 48 <= u && u <= 57 {
        Some((u - 48) as u8)
    } else if 97 <= u && u <= 102 {
        Some((u - 87) as u8)
    } else if 65 <= u && u <= 70 {
        Some((u - 55) as u8)
    } else {
        None
    }
}

fn read_hex_color(h: &Vec<char>) -> (r: Option<(u8, u8, u8)>)
    ensures
        r == hex_color(h@),
{
    if h.len() == 7 && h[0] == '#' {
        let d1 = hex_digit_value(h[1]);
        let d2 = hex_digit_value(h[2]);
        let d3 = hex_digit_value(h[3]);
        let d4 = hex_digit_value(h[4]);
        let d5 = hex_digit_value(h[5]);
        let d6 = hex_digit_value(h[6]);
        match (d1, d2, d3, d4, d5, d6) {
            (Some(a), Some(b), Some(c), Some(d), Some(e), Some(f)) => Some(
                (a * 16 + b, c * 16 + d, e * 16 + f),
            ),
            _ => None,
        }
    } else if h.len() == 4 && h[0] == '#' {
        let d1 = hex_digit_value(h[1]);
        let d2 = hex_digit_value(h[2]);
        let d3 = hex_digit_value(h[3]);
        match (d1, d2, d3) {
            (Some(a), Some(b), Some(c)) => Some((a * 17, b * 17, c * 17)),
            _ => None,
        }
    } else {
        None
    }
}

fn find_blank(v: &Vec<char>, from: usize) -> (i: usize)
    requires
        from <= v.len(),
    ensures
        from <= i <= v.len(),
        first_blank(v@.skip(from as int)) == i - from,
{
    let mut i: usize = from;
    while i < v.len() && !is_ascii_blank_char(v[i])
        invariant
            from <= i <= v.len(),
            first_blank(v@.skip(from as int)) == (i - from) + first_blank(v@.skip(i as int)),
        decreases v.len() - i,
    {
        assert(v@.skip(i as int).drop_first() == v@.skip(i + 1));
        i += 1;
    }
    i
}

fn skip_spaces_from(v: &Vec<char>, from: usize) -> (i: usize)
    requires
        from <= v.len(),
    ensures
        from <= i <= v.len(),
        skip_spaces(v@.skip(from as int)) == v@.skip(i as int),
{
    let mut i: usize = from;
    while i < v.len() && is_space_char(v[i])
        invariant
            from <= i <= v.len(),
            skip_spaces(v@.skip(from as int)) == skip_spaces(v@.skip(i as int)),
        decreases v.len() - i,
    {
        assert(v@.skip(i as int).drop_first() == v@.skip(i + 1));
        i += 1;
    }
    i
}

fn starts_with_color(t: &Vec<char>) -> (r: bool)
    ensures
        r == (t.len() >= 5 && t@.take(5) == "color"@),
{
    proof {
        reveal_strlit("color");
    }
    if t.len() < 5 {
        return false;
    }
    let r = t[0] == 'c' && t[1] == 'o' && t[2] == 'l' && t[3] == 'o' && t[4] == 'r';
    proof {
        if r {
            assert(t@.take(5) =~= "color"@);
        } else {
            assert(t@.take(5)[0] == t@[0]);
            assert(t@.take(5)[1] == t@[1]);
            assert(t@.take(5)[2] == t@[2]);
            assert(t@.take(5)[3] == t@[3]);
            assert(t@.take(5)[4] == t@[4]);
        }
    }
    r
}

fn read_color_line(t: &Vec<char>) -> (r: Option<(usize, (u8, u8, u8))>)
    ensures
        match r {
            Some((idx, rgb)) => color_line(t@) == Some((idx as int, rgb)) && idx <= 15,
            None => color_line(t@) is None,
        },
{
    if !starts_with_color(t) {
        return None;
    }
    let ghost rest = t@.skip(5);
    let k = find_blank(t, 5);
    if k >= t.len() {
        return None;
    }
    let digits = sub_vec(t, 5, k);
    assert(digits@ == rest.take(k - 5));
    let idx = match parse_digits_of(&digits, 255) {
        Some(idx) => idx,
        None => {
            return None;
        },
    };
    if idx > 15 {
        return None;
    }
    let h = skip_spaces_from(t, k + 1);
    assert(rest.skip(k - 5 + 1) == t@.skip(k + 1));
    let hex = sub_vec(t, h, t.len());
    match read_hex_color(&hex) {
        Some(rgb) => Some((idx, rgb)),
        None => None,
    }
}

fn set_from_line(palette: &mut [u8; 48], line: &Vec<char>)
    ensures
        final(palette)@ == apply_line(old(palette)@, line@),
{
    let t = trimmed(line);
    match read_color_line(&t) {
        Some((idx, rgb)) => {
            let base: usize = idx * 3;
            palette[base] = rgb.0;
            palette[base + 1] = rgb.1;
            palette[base + 2] = rgb.2;
        },
        None => {},
    }
}

/// Reads the answer to a palette query: lines such as `color4 #7aa2f7` or
/// `color4 #7af`. Slots that no line sets keep their default; lines that are
/// something else are passed over.
pub fn parse_kitty_colors(output: &str) -> (palette: [u8; 48])
    ensures
        palette@ == parse_kitty_colors_spec(output@),
{
    let all = chars_of(output);
    let mut palette = DEFAULT_PALETTE;
    let mut pos: usize = 0;
    assert(all@.skip(0) == all@);
    loop
        invariant
            pos <= all.len(),
            all@ == output@,
            parse_kitty_colors_spec(output@) == apply_lines(palette@, all@.skip(pos as int)),
        decreases all.len() - pos,
    {
        let ghost rest = all@.skip(pos as int);
        let end = find_newline(&all, pos);
        let line = sub_vec(&all, pos, end);
        assert(line@ == rest.take(end - pos));
        set_from_line(&mut palette, &line);
        if end >= all.len() {
            return palette;
        }
        assert(rest.skip(end - pos + 1) == all@.skip(end + 1));
        pos = end + 1;
    }
}

fn find_newline(v: &Vec<char>, from: usize) -> (i: usize)
    requires
        from <= v.len(),
    ensures
        from <= i <= v.len(),
        index_of(v@.skip(from as int), '\n') == i - from,
{
    let mut i: usize = from;
    while i < v.len() && v[i] != '\n'
        invariant
            from <= i <= v.len(),
            index_of(v@.skip(from as int), '\n') == (i - from) + index_of(v@.skip(i as int), '\n'),
        decreases v.len() - i,
    {
        assert(v@.skip(i as int).drop_first() == v@.skip(i + 1));
        i += 1;
    }
    i
}

} // verus!
