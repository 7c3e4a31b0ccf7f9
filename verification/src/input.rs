//! The logical key alphabet, and decoding from raw input codes.
//!
//! Reading from the terminal happens outside the library; the caller hands
//! in the 32-bit character code it read.

use vstd::prelude::*;

verus! {

/// A decoded key press.
#[derive(Clone, Copy, Debug, PartialEq, Eq, Structural)]
pub enum Key {
    Enter,
    Esc,
    Backspace,
    Char(char),
    Unknown,
}

/// Relies on `char::from_u32`: it returns the character with scalar value
/// `ic`, or `None` exactly when `ic` is no Unicode scalar value (a surrogate
/// code point or above the highest code point).
#[verifier::external_body]
pub fn parse_char(ic: u32) -> (r: Option<char>)
    ensures
        match r {
            Some(c) => c as u32 == ic,
            None => (0xD800 <= ic <= 0xDFFF) || ic > 0x10FFFF,
        },
{
    char::from_u32(ic)
}

/// Turns a raw character code into a logical key: escape, enter and
/// backspace by their codes, any other valid scalar value as a plain
/// character.
pub fn decode_key(ic: u32) -> (k: Key)
    ensures
        ic == 27 ==> k == Key::Esc,
        ic == 13 ==> k == Key::Enter,
        ic == 127 ==> k == Key::Backspace,
        (ic != 27 && ic != 13 && ic != 127) ==> match k {
            Key::Char(c) => c as u32 == ic,
            Key::Unknown => (0xD800 <= ic <= 0xDFFF) || ic > 0x10FFFF,
            _ => false,
        },
{
    if ic == 27 {
        Key::Esc
    } else if ic == 13 {
        Key::Enter
    } else if ic == 127 {
        Key::Backspace
    } else {
        match parse_char(ic) {
            Some(c) => Key::Char(c),
            None => Key::Unknown,
        }
    }
}

} // verus!
