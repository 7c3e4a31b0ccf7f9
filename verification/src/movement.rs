//! Cursor movement directions.

use vstd::prelude::*;

verus! {

/// A grapheme-stepwise cursor movement.
#[derive(Clone, Copy, Debug, PartialEq, Eq, Structural)]
pub enum Movement {
    Left,
    Right,
    Up,
    Down,
}

} // verus!
