//! The file searcher window.

use vstd::prelude::*;

verus! {

/// Marks the entity of the file searcher window.
pub struct FileSearcher;

} // verus!
