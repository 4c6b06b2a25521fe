//! Typing into text boxes.

use vstd::prelude::*;
use crate::event::{Key, Modifiers};

verus! {

/// The character a key press types into a text box: the shifted character when
/// shift is held and the key has one, else the key's own character.
pub open spec fn text_box_char(key: Key, m: Modifiers) -> Option<char> {
    match key {
        Key::Char(lower, upper) => if m.shift && upper is Some {
            upper
        } else {
            Some(lower)
        },
        _ => None,
    }
}

/// The character a key press types into a text box, if any.
pub fn typed_character(key: &Key, modifiers: Modifiers) -> (r: Option<char>)
    ensures
        r == text_box_char(*key, modifiers),
{
    match key {
        Key::Char(_, Some(uppercase)) if modifiers.shift => Some(*uppercase),
        Key::Char(lowercase, _) => Some(*lowercase),
        _ => None,
    }
}

} // verus!
