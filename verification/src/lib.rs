//! The scrollback of a terminal as a buffer of a modal editor.
//!
//! The raw bytes of a scrollback go through a terminal emulator; the rows it
//! holds become lines of text with styled spans, whose offsets count bytes of
//! the text, and the cursor of the live terminal is placed in them. Three
//! texts come out: the buffer, the script that lays the spans over it, and the
//! script that sets the editor up.
//!
//! The contracts are stated over sequences of characters and bytes. `model`
//! says what a screen is and what holds of every screen, `shown` what its
//! spans say of the cells; `emulator` holds the calls into the `vt100` crate,
//! which are believed and not proved.

pub mod text;
pub mod lex;
pub mod decimal;
pub mod kitty;
pub mod palette;
pub mod roundtrip;
pub mod emulator;
pub mod face;
pub mod model;
pub mod shown;
pub mod terminal;
pub mod tmux;
pub mod cli;
pub mod output;
