//! A small modal, terminal-style text editor core.
//!
//! The library owns the Unicode-aware text buffer, the cursor and viewport
//! model, the prompt line, and the mode-driven command dispatch.  All text is
//! held as sequences of characters; columns are display-width units.  File
//! reading and writing, terminal rendering and raw key decoding live outside
//! the library: callers hand in file contents as plain values and perform the
//! load and save actions the editor asks for.

use vstd::prelude::*;

pub mod buffer;
pub mod command;
pub mod editor;
pub mod error;
pub mod input;
pub mod mappings;
pub mod mode;
pub mod movement;
pub mod prompt;
pub mod window;
pub mod unicode;

verus! {

/// Largest number of characters a buffer (or a prompt line) may hold.  The
/// bound exists only so that column arithmetic, which weights a character by
/// a display width of at most three columns, provably fits in `usize`; it is
/// far beyond what a machine could hold in memory.
pub const MAX_TEXT: usize = usize::MAX / 16;

/// Largest number of lines a buffer may hold, for the same reason.
pub const MAX_LINES: usize = usize::MAX / 8;

} // verus!
