//! Application-wide keyboard shortcuts.

use vstd::prelude::*;
use crate::event::{Key, Modifiers};

verus! {

/// The logo key with `p` toggles the file searcher.
pub open spec fn is_file_searcher_shortcut(key: Key, m: Modifiers) -> bool {
    m.logo && key matches Key::Char('p', _)
}

/// `true` when the key press toggles the file searcher window.
pub fn toggles_file_searcher(key: &Key, modifiers: Modifiers) -> (r: bool)
    ensures
        r == is_file_searcher_shortcut(*key, modifiers),
{
    modifiers.logo && matches!(key, Key::Char('p', _))
}

} // verus!
