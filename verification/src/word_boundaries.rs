//! Word boundaries of a line, as the regex crate finds them.

use vstd::prelude::*;
use vstd::utf8::*;
use regex::Regex;

verus! {

/// The start offsets of the successive matches that `Regex::new(pattern)` and
/// `Regex::find_iter` find in `text`, or `None` where the pattern does not compile.
pub uninterp spec fn regex_match_starts(pattern: Seq<char>, text: Seq<char>) -> Option<Seq<usize>>;

/// Each stop is a character boundary of `text`'s bytes, and the stops come in
/// order: a match never starts before the one found ahead of it.
pub open spec fn stops_on_boundaries(stops: Seq<usize>, text: Seq<char>) -> bool {
    &&& forall|i: int| 0 <= i < stops.len() ==> is_char_boundary(encode_utf8(text), #[trigger] stops[i] as int)
    &&& forall|i: int, j: int| 0 <= i <= j < stops.len() ==> #[trigger] stops[i] <= #[trigger] stops[j]
}

/// The pattern for the stops of a forward word motion: word boundaries and the line's end.
pub open spec fn forward_word_pattern() -> Seq<char> {
    "(\\b|$)"@
}

/// The pattern for the stops of a backward word motion: word boundaries, the
/// line's end and its start.
pub open spec fn backward_word_pattern() -> Seq<char> {
    "(\\b|$|^)"@
}

/// Compiles `pattern` with `regex::Regex::new` and returns the start byte offsets
/// of the matches that `Regex::find_iter` yields in `text`, in order. The contract
/// names the result, and states what regex documents of every match: its start
/// falls on a UTF-8 codepoint boundary, and successive matches do not overlap, so
/// their starts never decrease. Which offsets a pattern matches is not stated.
#[verifier::external_body]
fn match_starts(pattern: &str, text: &str) -> (r: Option<Vec<usize>>)
    ensures
        match r {
            Some(v) => regex_match_starts(pattern@, text@) == Some(v@),
            None => regex_match_starts(pattern@, text@) == None::<Seq<usize>>,
        },
        r matches Some(v) ==> stops_on_boundaries(v@, text@),
{
    let re = Regex::new(pattern).ok()?;
    Some(re.find_iter(text).map(|m| m.start()).collect())
}

/// The stops of a forward word motion in `text`: where `(\b|$)` matches.
pub fn forward_word_stops(text: &str) -> (r: Option<Vec<usize>>)
    ensures
        match r {
            Some(v) => regex_match_starts(forward_word_pattern(), text@) == Some(v@),
            None => regex_match_starts(forward_word_pattern(), text@) == None::<Seq<usize>>,
        },
        r matches Some(v) ==> stops_on_boundaries(v@, text@),
{
    match_starts("(\\b|$)", text)
}

/// The stops of a backward word motion in `text`: where `(\b|$|^)` matches.
pub fn backward_word_stops(text: &str) -> (r: Option<Vec<usize>>)
    ensures
        match r {
            Some(v) => regex_match_starts(backward_word_pattern(), text@) == Some(v@),
            None => regex_match_starts(backward_word_pattern(), text@) == None::<Seq<usize>>,
        },
        r matches Some(v) ==> stops_on_boundaries(v@, text@),
{
    match_starts("(\\b|$|^)", text)
}

} // verus!
