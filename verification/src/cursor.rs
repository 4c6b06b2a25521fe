//! Free-standing text cursors: what a key press types at a cursor and where
//! the cursor goes.

use vstd::prelude::*;
use crate::event::{Key, Modifiers};

verus! {

/// A cursor position: an offset into the text, and a row and column.
pub type CursorPosition = (usize, (usize, usize));

/// The character a key press types at a cursor: a character key's shifted or
/// plain character, a tab for the tab key and a newline for return.
pub open spec fn cursor_char(key: Key, m: Modifiers) -> Option<char> {
    match key {
        Key::Char(lower, upper) => if m.shift {
            upper
        } else {
            Some(lower)
        },
        Key::Tab => Some('\t'),
        Key::Return => Some('\n'),
        _ => None,
    }
}

/// The character a key press types at a cursor, if any.
pub fn typed_at_cursor(key: &Key, modifiers: Modifiers) -> (r: Option<char>)
    ensures
        r == cursor_char(*key, modifiers),
{
    match key {
        Key::Char(_, uppercase) if modifiers.shift && uppercase.is_some() => Some(uppercase.unwrap()),
        Key::Char(lowercase, _) if !modifiers.shift => Some(*lowercase),
        Key::Tab => Some('\t'),
        Key::Return => Some('\n'),
        _ => None,
    }
}

/// Where a cursor goes after a key press: one step on when a character was
/// typed, one step back on backspace, nowhere otherwise.
pub fn position_after_key(position: CursorPosition, typed: bool, backspace: bool) -> (r: CursorPosition)
    requires
        typed ==> position.0 < usize::MAX && position.1.1 < usize::MAX,
        !typed && backspace ==> position.0 >= 1 && position.1.1 >= 1,
    ensures
        typed ==> r.0 == position.0 + 1 && r.1.0 == position.1.0 && r.1.1 == position.1.1 + 1,
        !typed && backspace ==> r.0 == position.0 - 1 && r.1.0 == position.1.0 && r.1.1 == position.1.1 - 1,
        !typed && !backspace ==> r == position,
{
    if typed {
        (position.0 + 1, (position.1.0, position.1.1 + 1))
    } else if backspace {
        (position.0 - 1, (position.1.0, position.1.1 - 1))
    } else {
        position
    }
}

} // verus!
