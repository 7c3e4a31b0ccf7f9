//! The editor's three modes.

use vstd::prelude::*;

verus! {

/// The global mode: it selects the key mapping table and the default
/// behaviour of unmapped keys.
#[derive(Clone, Copy, Debug, PartialEq, Eq, Structural)]
pub enum Mode {
    Normal,
    Insert,
    Prompt,
}

} // verus!
