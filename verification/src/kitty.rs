//! What the host terminal hands over: the window identifier and the grid
//! metadata, `scrolled_by:cursor_x,cursor_y:lines,columns`, with the cursor
//! counted from one.

use vstd::prelude::*;
use vstd::string::StringExecFns;
use crate::decimal::{decimal, parse_unsigned, parse_unsigned_of, push_decimal};
use crate::lex::{has_char, index_of, split_at_first, split_once, trim, trimmed};
use crate::text::{chars_of, string_of};

verus! {

/// A validated window identifier: never zero.
#[derive(Debug, Clone, Copy, PartialEq, Eq, Structural)]
pub struct WindowId(u32);

impl WindowId {
    #[verifier::type_invariant]
    spec fn nonzero(self) -> bool {
        self.0 != 0
    }

    /// The number the identifier stands for.
    pub closed spec fn value(self) -> u32 {
        self.0
    }

    /// The identifier with the given number, unless that is zero.
    pub fn new(id: u32) -> (r: Option<WindowId>)
        ensures
            id == 0 <==> r is None,
            r matches Some(w) ==> w.value() == id,
    {
        if id == 0 {
            None
        } else {
            Some(WindowId(id))
        }
    }

    /// The number the identifier stands for.
    pub fn get(&self) -> (id: u32)
        ensures
            id == self.value(),
            id != 0,
    {
        proof {
            use_type_invariant(self);
        }
        self.0
    }

    /// The identifier in decimal.
    pub fn to_string(&self) -> (s: String)
        ensures
            s@ == decimal(self.value() as nat),
    {
        let mut s = String::new();
        push_decimal(&mut s, self.0 as usize);
        s
    }
}

/// The grid of the live terminal and its cursor, counted from zero.
#[derive(Debug, Clone, Copy, PartialEq, Eq, Structural)]
pub struct PipeData {
    pub cursor_x: usize,
    pub cursor_y: usize,
    pub lines: u16,
    pub columns: u16,
}

impl PipeData {
    /// The grid has at least one cell and the cursor stands inside it.
    pub open spec fn valid(self) -> bool {
        &&& self.lines >= 1
        &&& self.columns >= 1
        &&& self.cursor_x < self.columns
        &&& self.cursor_y < self.lines
    }

    /// The grid has two rows or more, and three columns or more but no more
    /// than 65527: the terminal emulator does not take another one.
    pub open spec fn emulable(self) -> bool {
        self.lines >= 2 && 3 <= self.columns <= 65527
    }

    /// Whether the grid has at least one cell and the cursor stands inside
    /// it.
    pub fn is_valid(&self) -> (b: bool)
        ensures
            b == self.valid(),
    {
        self.lines >= 1 && self.columns >= 1 && self.cursor_x < self.columns as usize
            && self.cursor_y < self.lines as usize
    }

    /// Whether the grid is one that the terminal emulator takes.
    pub fn is_emulable(&self) -> (b: bool)
        ensures
            b == self.emulable(),
    {
        self.lines >= 2 && self.columns >= 3 && self.columns <= 65527
    }
}

/// A field of the grid metadata.
#[derive(Debug, Clone, Copy, PartialEq, Eq, Structural)]
pub enum Field {
    ScrolledBy,
    CursorX,
    CursorY,
    Lines,
    Columns,
}

/// Why grid metadata was rejected.
#[derive(Debug, Clone, PartialEq, Eq)]
pub enum PipeDataError {
    /// There are not exactly three parts between colons.
    Parts,
    /// The first part holds a comma.
    ScrolledByComma { found: String },
    /// The second part is not two fields with one comma between them.
    CursorPair { found: String },
    /// The third part is not two fields with one comma between them.
    SizePair { found: String },
    /// A field is not a number of its type.
    NotANumber { field: Field },
    /// A field that counts from one is zero.
    Zero { field: Field },
    /// The cursor's column lies right of the grid.
    CursorXBeyond { cursor_x: usize, columns: u16 },
    /// The cursor's row lies below the grid.
    CursorYBeyond { cursor_y: usize, lines: u16 },
}

/// `PipeDataError` with its texts as character sequences.
pub enum PipeDataErrorView {
    Parts,
    ScrolledByComma { found: Seq<char> },
    CursorPair { found: Seq<char> },
    SizePair { found: Seq<char> },
    NotANumber { field: Field },
    Zero { field: Field },
    CursorXBeyond { cursor_x: usize, columns: u16 },
    CursorYBeyond { cursor_y: usize, lines: u16 },
}

impl View for PipeDataError {
    type V = PipeDataErrorView;

    open spec fn view(&self) -> PipeDataErrorView {
        match *self {
            PipeDataError::Parts => PipeDataErrorView::Parts,
            PipeDataError::ScrolledByComma { found } => PipeDataErrorView::ScrolledByComma {
                found: found@,
            },
            PipeDataError::CursorPair { found } => PipeDataErrorView::CursorPair { found: found@ },
            PipeDataError::SizePair { found } => PipeDataErrorView::SizePair { found: found@ },
            PipeDataError::NotANumber { field } => PipeDataErrorView::NotANumber { field },
            PipeDataError::Zero { field } => PipeDataErrorView::Zero { field },
            PipeDataError::CursorXBeyond { cursor_x, columns } => PipeDataErrorView::CursorXBeyond {
                cursor_x,
                columns,
            },
            PipeDataError::CursorYBeyond { cursor_y, lines } => PipeDataErrorView::CursorYBeyond {
                cursor_y,
                lines,
            },
        }
    }
}

/// The name of a field as the messages write it.
pub open spec fn field_name(field: Field) -> Seq<char> {
    match field {
        Field::ScrolledBy => "scrolled_by"@,
        Field::CursorX => "cursor_x"@,
        Field::CursorY => "cursor_y"@,
        Field::Lines => "lines"@,
        Field::Columns => "columns"@,
    }
}

/// What follows "must be at least 1" for a field.
pub open spec fn one_based_note(field: Field) -> Seq<char> {
    match field {
        Field::CursorX => " (1-based)"@,
        Field::CursorY => " (1-based)"@,
        _ => ""@,
    }
}

/// The message of an error: the fixed prefix, then what is wrong.
pub open spec fn pipe_data_message(e: PipeDataErrorView) -> Seq<char> {
    "KITTY_PIPE_DATA: "@ + match e {
        PipeDataErrorView::Parts => "expected 3 colon-separated parts"@,
        PipeDataErrorView::ScrolledByComma { found } => "invalid scrolled_by '"@ + found
            + "' (unexpected comma)"@,
        PipeDataErrorView::CursorPair { found } => "expected 'cursor_x,cursor_y' in second part, got '"@
            + found + "'"@,
        PipeDataErrorView::SizePair { found } => "expected 'lines,columns' in third part, got '"@
            + found + "'"@,
        PipeDataErrorView::NotANumber { field } => "invalid "@ + field_name(field),
        PipeDataErrorView::Zero { field } => field_name(field) + " must be at least 1"@
            + one_based_note(field),
        PipeDataErrorView::CursorXBeyond { cursor_x, columns } => "cursor_x ("@ + decimal(
            cursor_x as nat,
        ) + ") must be at most columns ("@ + decimal(columns as nat) + ")"@,
        PipeDataErrorView::CursorYBeyond { cursor_y, lines } => "cursor_y ("@ + decimal(
            cursor_y as nat,
        ) + ") must be at most lines ("@ + decimal(lines as nat) + ")"@,
    }
}

fn push_field_name(s: &mut String, field: Field)
    ensures
        final(s)@ == old(s)@ + field_name(field),
{
    match field {
        Field::ScrolledBy => s.append("scrolled_by"),
        Field::CursorX => s.append("cursor_x"),
        Field::CursorY => s.append("cursor_y"),
        Field::Lines => s.append("lines"),
        Field::Columns => s.append("columns"),
    }
}

impl PipeDataError {
    /// The message of the error.
    pub fn to_string(&self) -> (s: String)
        ensures
            s@ == pipe_data_message(self@),
    {
        let mut s = String::new();
        s.append("KITTY_PIPE_DATA: ");
        match self {
            PipeDataError::Parts => {
                s.append("expected 3 colon-separated parts");
            },
            PipeDataError::ScrolledByComma { found } => {
                s.append("invalid scrolled_by '");
                s.append(found.as_str());
                s.append("' (unexpected comma)");
            },
            PipeDataError::CursorPair { found } => {
                s.append("expected 'cursor_x,cursor_y' in second part, got '");
                s.append(found.as_str());
                s.append("'");
            },
            PipeDataError::SizePair { found } => {
                s.append("expected 'lines,columns' in third part, got '");
                s.append(found.as_str());
                s.append("'");
            },
            PipeDataError::NotANumber { field } => {
                s.append("invalid ");
                push_field_name(&mut s, *field);
            },
            PipeDataError::Zero { field } => {
                push_field_name(&mut s, *field);
                s.append(" must be at least 1");
                match field {
                    Field::CursorX => s.append(" (1-based)"),
                    Field::CursorY => s.append(" (1-based)"),
                    _ => s.append(""),
                }
            },
            PipeDataError::CursorXBeyond { cursor_x, columns } => {
                s.append("cursor_x (");
                push_decimal(&mut s, *cursor_x);
                s.append(") must be at most columns (");
                push_decimal(&mut s, *columns as usize);
                s.append(")");
            },
            PipeDataError::CursorYBeyond { cursor_y, lines } => {
                s.append("cursor_y (");
                push_decimal(&mut s, *cursor_y);
                s.append(") must be at most lines (");
                push_decimal(&mut s, *lines as usize);
                s.append(")");
            },
        }
        s
    }
}

/// Whether `s` holds a `c`.
pub open spec fn holds(s: Seq<char>, c: char) -> bool {
    index_of(s, c) < s.len()
}

/// The two fields of a part that is written `a,b`, with one comma.
pub open spec fn pair_fields(part: Seq<char>) -> Option<(Seq<char>, Seq<char>)> {
    match split_once(part, ',') {
        Some((a, b)) => if holds(b, ',') {
            None
        } else {
            Some((a, b))
        },
        None => None,
    }
}

/// The three parts of grid metadata, which two colons separate.
pub open spec fn three_parts(t: Seq<char>) -> Option<(Seq<char>, Seq<char>, Seq<char>)> {
    match split_once(t, ':') {
        Some((part0, rest)) => match split_once(rest, ':') {
            Some((part1, part2)) => if holds(part2, ':') {
                None
            } else {
                Some((part0, part1, part2))
            },
            None => None,
        },
        None => None,
    }
}

/// The grid that the numbers of the wire format describe, or what is wrong
/// with them: zeros first, then a cursor outside the grid.
pub open spec fn check_grid(cursor_x_1: nat, cursor_y_1: nat, lines: nat, columns: nat) -> Result<
    PipeData,
    PipeDataErrorView,
>
    recommends
        cursor_x_1 <= usize::MAX,
        cursor_y_1 <= usize::MAX,
        lines <= u16::MAX,
        columns <= u16::MAX,
{
    if lines == 0 {
        Err(PipeDataErrorView::Zero { field: Field::Lines })
    } else if columns == 0 {
        Err(PipeDataErrorView::Zero { field: Field::Columns })
    } else if cursor_x_1 == 0 {
        Err(PipeDataErrorView::Zero { field: Field::CursorX })
    } else if cursor_y_1 == 0 {
        Err(PipeDataErrorView::Zero { field: Field::CursorY })
    } else if cursor_x_1 > columns {
        Err(
            PipeDataErrorView::CursorXBeyond {
                cursor_x: cursor_x_1 as usize,
                columns: columns as u16,
            },
        )
    } else if cursor_y_1 > lines {
        Err(PipeDataErrorView::CursorYBeyond { cursor_y: cursor_y_1 as usize, lines: lines as u16 })
    } else {
        Ok(
            PipeData {
                cursor_x: (cursor_x_1 - 1) as usize,
                cursor_y: (cursor_y_1 - 1) as usize,
                lines: lines as u16,
                columns: columns as u16,
            },
        )
    }
}

/// What grid metadata means. The text is trimmed and split into its three
/// parts; the first must be a number and is not used; the cursor comes counted
/// from one and leaves counted from zero. Of several faults the first in this
/// order is reported: the parts, the first part, the second, the third, then
/// the values.
pub open spec fn parse_pipe_data_spec(s: Seq<char>) -> Result<PipeData, PipeDataErrorView> {
    match three_parts(trim(s)) {
        None => Err(PipeDataErrorView::Parts),
        Some((part0, part1, part2)) => {
            if holds(part0, ',') {
                Err(PipeDataErrorView::ScrolledByComma { found: part0 })
            } else if parse_unsigned(part0, usize::MAX as nat) is None {
                Err(PipeDataErrorView::NotANumber { field: Field::ScrolledBy })
            } else {
                match pair_fields(part1) {
                    None => Err(PipeDataErrorView::CursorPair { found: part1 }),
                    Some((cx, cy)) => {
                        if parse_unsigned(cx, usize::MAX as nat) is None {
                            Err(PipeDataErrorView::NotANumber { field: Field::CursorX })
                        } else if parse_unsigned(cy, usize::MAX as nat) is None {
                            Err(PipeDataErrorView::NotANumber { field: Field::CursorY })
                        } else {
                            match pair_fields(part2) {
                                None => Err(PipeDataErrorView::SizePair { found: part2 }),
                                Some((ls, cs)) => {
                                    if parse_unsigned(ls, u16::MAX as nat) is None {
                                        Err(PipeDataErrorView::NotANumber { field: Field::Lines })
                                    } else if parse_unsigned(cs, u16::MAX as nat) is None {
                                        Err(
                                            PipeDataErrorView::NotANumber {
                                                field: Field::Columns,
                                            },
                                        )
                                    } else {
                                        check_grid(
                                            parse_unsigned(cx, usize::MAX as nat)->0,
                                            parse_unsigned(cy, usize::MAX as nat)->0,
                                            parse_unsigned(ls, u16::MAX as nat)->0,
                                            parse_unsigned(cs, u16::MAX as nat)->0,
                                        )
                                    }
                                },
                            }
                        }
                    },
                }
            }
        },
    }
}

fn split_three(t: &Vec<char>) -> (r: Option<(Vec<char>, Vec<char>, Vec<char>)>)
    ensures
        match r {
            Some((a, b, c)) => three_parts(t@) == Some((a@, b@, c@)),
            None => three_parts(t@) is None,
        },
{
    match split_at_first(t, ':') {
        None => None,
        Some((part0, rest)) => match split_at_first(&rest, ':') {
            None => None,
            Some((part1, part2)) => {
                if has_char(&part2, ':') {
                    None
                } else {
                    Some((part0, part1, part2))
                }
            },
        },
    }
}

fn split_pair(part: &Vec<char>) -> (r: Option<(Vec<char>, Vec<char>)>)
    ensures
        match r {
            Some((a, b)) => pair_fields(part@) == Some((a@, b@)),
            None => pair_fields(part@) is None,
        },
{
    match split_at_first(part, ',') {
        None => None,
        Some((a, b)) => {
            if has_char(&b, ',') {
                None
            } else {
                Some((a, b))
            }
        },
    }
}

fn checked_grid(cursor_x_1: usize, cursor_y_1: usize, lines: u16, columns: u16) -> (r: Result<
    PipeData,
    PipeDataError,
>)
    ensures
        match r {
            Ok(pd) => check_grid(cursor_x_1 as nat, cursor_y_1 as nat, lines as nat, columns as nat)
                == Ok::<PipeData, PipeDataErrorView>(pd),
            Err(e) => check_grid(cursor_x_1 as nat, cursor_y_1 as nat, lines as nat, columns as nat)
                == Err::<PipeData, PipeDataErrorView>(e@),
        },
{
    if lines == 0 {
        Err(PipeDataError::Zero { field: Field::Lines })
    } else if columns == 0 {
        Err(PipeDataError::Zero { field: Field::Columns })
    } else if cursor_x_1 == 0 {
        Err(PipeDataError::Zero { field: Field::CursorX })
    } else if cursor_y_1 == 0 {
        Err(PipeDataError::Zero { field: Field::CursorY })
    } else if cursor_x_1 > columns as usize {
        Err(PipeDataError::CursorXBeyond { cursor_x: cursor_x_1, columns })
    } else if cursor_y_1 > lines as usize {
        Err(PipeDataError::CursorYBeyond { cursor_y: cursor_y_1, lines })
    } else {
        Ok(PipeData { cursor_x: cursor_x_1 - 1, cursor_y: cursor_y_1 - 1, lines, columns })
    }
}

/// Reads grid metadata of the form `scrolled_by:cursor_x,cursor_y:lines,columns`.
pub fn parse_pipe_data_str(s: &str) -> (r: Result<PipeData, PipeDataError>)
    ensures
        match r {
            Ok(pd) => parse_pipe_data_spec(s@) == Ok::<PipeData, PipeDataErrorView>(pd),
            Err(e) => parse_pipe_data_spec(s@) == Err::<PipeData, PipeDataErrorView>(e@),
        },
        r matches Ok(pd) ==> pd.valid(),
{
    let all = chars_of(s);
    let t = trimmed(&all);
    let (part0, part1, part2) = match split_three(&t) {
        None => {
            return Err(PipeDataError::Parts);
        },
        Some(parts) => parts,
    };
    if has_char(&part0, ',') {
        return Err(PipeDataError::ScrolledByComma { found: string_of(&part0) });
    }
    if parse_unsigned_of(&part0, usize::MAX).is_none() {
        return Err(PipeDataError::NotANumber { field: Field::ScrolledBy });
    }
    let (cx, cy) = match split_pair(&part1) {
        None => {
            return Err(PipeDataError::CursorPair { found: string_of(&part1) });
        },
        Some(pair) => pair,
    };
    let cursor_x_1 = match parse_unsigned_of(&cx, usize::MAX) {
        None => {
            return Err(PipeDataError::NotANumber { field: Field::CursorX });
        },
        Some(n) => n,
    };
    let cursor_y_1 = match parse_unsigned_of(&cy, usize::MAX) {
        None => {
            return Err(PipeDataError::NotANumber { field: Field::CursorY });
        },
        Some(n) => n,
    };
    let (ls, cs) = match split_pair(&part2) {
        None => {
            return Err(PipeDataError::SizePair { found: string_of(&part2) });
        },
        Some(pair) => pair,
    };
    let lines = match parse_unsigned_of(&ls, 0xFFFF) {
        None => {
            return Err(PipeDataError::NotANumber { field: Field::Lines });
        },
        Some(n) => n as u16,
    };
    let columns = match parse_unsigned_of(&cs, 0xFFFF) {
        None => {
            return Err(PipeDataError::NotANumber { field: Field::Columns });
        },
        Some(n) => n as u16,
    };
    checked_grid(cursor_x_1, cursor_y_1, lines, columns)
}

/// Why a window identifier was rejected.
#[derive(Debug, Clone, PartialEq, Eq)]
pub enum WindowIdError {
    /// The text is not a number that fits 32 bits.
    NotANumber { found: String },
    /// The number is zero.
    Zero,
}

/// `WindowIdError` with its text as a character sequence.
pub enum WindowIdErrorView {
    NotANumber { found: Seq<char> },
    Zero,
}

impl View for WindowIdError {
    type V = WindowIdErrorView;

    open spec fn view(&self) -> WindowIdErrorView {
        match *self {
            WindowIdError::NotANumber { found } => WindowIdErrorView::NotANumber { found: found@ },
            WindowIdError::Zero => WindowIdErrorView::Zero,
        }
    }
}

/// The message of a window identifier error.
pub open spec fn window_id_message(e: WindowIdErrorView) -> Seq<char> {
    match e {
        WindowIdErrorView::NotANumber { found } => "invalid kitty window ID '"@ + found
            + "' — expected a number (check your kitty.conf)"@,
        WindowIdErrorView::Zero => "invalid kitty window ID '0' — window IDs start at 1"@,
    }
}

impl WindowIdError {
    /// The message of the error.
    pub fn to_string(&self) -> (s: String)
        ensures
            s@ == window_id_message(self@),
    {
        match self {
            WindowIdError::NotANumber { found } => {
                let mut s = String::new();
                s.append("invalid kitty window ID '");
                s.append(found.as_str());
                s.append("' — expected a number (check your kitty.conf)");
                s
            },
            WindowIdError::Zero => String::from_str(
                "invalid kitty window ID '0' — window IDs start at 1",
            ),
        }
    }
}

/// What a window identifier's text means: a number that fits 32 bits, written
/// as an optional `+` and digits with nothing around them, and not zero.
pub open spec fn parse_window_id_spec(s: Seq<char>) -> Result<u32, WindowIdErrorView> {
    match parse_unsigned(s, u32::MAX as nat) {
        None => Err(WindowIdErrorView::NotANumber { found: s }),
        Some(n) => if n == 0 {
            Err(WindowIdErrorView::Zero)
        } else {
            Ok(n as u32)
        },
    }
}

/// Reads and validates a window identifier.
pub fn parse_window_id(s: &str) -> (r: Result<WindowId, WindowIdError>)
    ensures
        match r {
            Ok(w) => parse_window_id_spec(s@) == Ok::<u32, WindowIdErrorView>(w.value()),
            Err(e) => parse_window_id_spec(s@) == Err::<u32, WindowIdErrorView>(e@),
        },
{
    let all = chars_of(s);
    match parse_unsigned_of(&all, 0xFFFF_FFFF) {
        None => Err(WindowIdError::NotANumber { found: String::from_str(s) }),
        Some(n) => {
            if n == 0 {
                Err(WindowIdError::Zero)
            } else {
                Ok(WindowId(n as u32))
            }
        },
    }
}

} // verus!
