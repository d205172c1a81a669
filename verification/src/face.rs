//! Faces: the style of a cell as the editor writes it,
//! `<fg>,<bg>[+<attrs>]`, where a colour is `default` or `rgb:RRGGBB` and the
//! attributes are letters out of `bdiur`, in that order.

use vstd::prelude::*;
use vstd::string::StringExecFns;
use crate::emulator::{Cell, CellAttrs};
use crate::palette::{push_rgb_token, resolve, rgb_token, Color};
use crate::text::push_char;

verus! {

/// The letters of the attributes that are set: bold `b`, dim `d`, italic `i`,
/// underline `u`, inverse `r`.
pub open spec fn attr_letters(a: CellAttrs) -> Seq<char> {
    (if a.bold {
        seq!['b']
    } else {
        Seq::<char>::empty()
    }) + (if a.dim {
        seq!['d']
    } else {
        Seq::<char>::empty()
    }) + (if a.italic {
        seq!['i']
    } else {
        Seq::<char>::empty()
    }) + (if a.underline {
        seq!['u']
    } else {
        Seq::<char>::empty()
    }) + (if a.inverse {
        seq!['r']
    } else {
        Seq::<char>::empty()
    })
}

/// How a face names a resolved colour.
pub open spec fn color_name(rgb: Option<(u8, u8, u8)>) -> Seq<char> {
    match rgb {
        Some(c) => rgb_token(c),
        None => "default"@,
    }
}

/// `+` and the letters, or nothing where no attribute is set.
pub open spec fn attr_suffix(letters: Seq<char>) -> Seq<char> {
    if letters.len() > 0 {
        seq!['+'] + letters
    } else {
        Seq::<char>::empty()
    }
}

/// The face of a style, or `None` for the style that has both colours by
/// default and no attribute.
pub open spec fn face_of(a: CellAttrs, palette: Seq<u8>) -> Option<Seq<char>> {
    let fg = resolve(a.fg, palette);
    let bg = resolve(a.bg, palette);
    let letters = attr_letters(a);
    if fg is None && bg is None && letters.len() == 0 {
        None
    } else {
        Some(color_name(fg) + seq![','] + color_name(bg) + attr_suffix(letters))
    }
}

/// An upper-case hexadecimal digit.
pub open spec fn is_upper_hex(c: char) -> bool {
    ('0' <= c && c <= '9') || ('A' <= c && c <= 'F')
}

/// `default`, or `rgb:` and six upper-case hexadecimal digits.
pub open spec fn is_color_name(t: Seq<char>) -> bool {
    t == "default"@ || (t.len() == 10 && t.take(4) == "rgb:"@ && forall|i: int|
        4 <= i < 10 ==> is_upper_hex(#[trigger] t[i]))
}

/// One of the letters `b`, `d`, `i`, `u`, `r`.
pub open spec fn is_attr_letter(c: char) -> bool {
    c == 'b' || c == 'd' || c == 'i' || c == 'u' || c == 'r'
}

/// Nothing, or `+` and at least one attribute letter.
pub open spec fn is_attr_suffix(t: Seq<char>) -> bool {
    t.len() == 0 || (t.len() >= 2 && t[0] == '+' && forall|i: int|
        1 <= i < t.len() ==> is_attr_letter(#[trigger] t[i]))
}

/// The form of every face: a colour name, a comma, a colour name, and an
/// attribute suffix.
pub open spec fn is_face(f: Seq<char>) -> bool {
    exists|fg: Seq<char>, bg: Seq<char>, suffix: Seq<char>|
        #![trigger fg + seq![','] + bg + suffix]
        f == fg + seq![','] + bg + suffix && is_color_name(fg) && is_color_name(bg)
            && is_attr_suffix(suffix)
}

proof fn lemma_color_name_form(rgb: Option<(u8, u8, u8)>)
    ensures
        is_color_name(color_name(rgb)),
{
    match rgb {
        Some(c) => {
            reveal_strlit("rgb:");
            let t = rgb_token(c);
            assert(t.take(4) =~= "rgb:"@);
        },
        None => {},
    }
}

/// Every face has the form `(default|rgb:[0-9A-F]{6}),(default|rgb:[0-9A-F]{6})(\+[bdiur]+)?`.
pub proof fn lemma_face_form(a: CellAttrs, palette: Seq<u8>)
    ensures
        face_of(a, palette) matches Some(f) ==> is_face(f),
{
    if let Some(f) = face_of(a, palette) {
        lemma_color_name_form(resolve(a.fg, palette));
        lemma_color_name_form(resolve(a.bg, palette));
    }
}

fn push_color_name(s: &mut String, color: Color, palette: &[u8; 48]) -> (some: bool)
    ensures
        final(s)@ == old(s)@ + color_name(resolve(color, palette@)),
        some == resolve(color, palette@) is Some,
{
    match crate::palette::color_to_rgb(color, palette) {
        Some(rgb) => {
            push_rgb_token(s, (rgb[0], rgb[1], rgb[2]));
            true
        },
        None => {
            s.append("default");
            false
        },
    }
}

fn letters_of(a: &CellAttrs) -> (s: String)
    ensures
        s@ == attr_letters(*a),
{
    let mut s = String::new();
    if a.bold {
        push_char(&mut s, 'b');
    }
    if a.dim {
        push_char(&mut s, 'd');
    }
    if a.italic {
        push_char(&mut s, 'i');
    }
    if a.underline {
        push_char(&mut s, 'u');
    }
    if a.inverse {
        push_char(&mut s, 'r');
    }
    s
}

/// The face of a cell: how the editor is to show it. `None` for a cell that
/// has nothing to show.
pub fn cell_face(cell: &Cell, palette: &[u8; 48]) -> (r: Option<String>)
    ensures
        match r {
            Some(f) => face_of(cell.attrs, palette@) == Some(f@) && is_face(f@),
            None => face_of(cell.attrs, palette@) is None,
        },
{
    let letters = letters_of(&cell.attrs);
    let mut s = String::new();
    let fg = push_color_name(&mut s, cell.attrs.fg, palette);
    push_char(&mut s, ',');
    let bg = push_color_name(&mut s, cell.attrs.bg, palette);
    let plain = letters.as_str().is_empty();
    if !fg && !bg && plain {
        return None;
    }
    if !plain {
        push_char(&mut s, '+');
        s.append(letters.as_str());
    }
    proof {
        lemma_face_form(cell.attrs, palette@);
        let f = face_of(cell.attrs, palette@)->0;
        assert(s@ =~= f);
    }
    Some(s)
}

} // verus!
