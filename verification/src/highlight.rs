//! Syntax highlighting: highlighting passes of tree-sitter over a source text,
//! and the folding of their event streams into highlighted byte ranges.

use vstd::prelude::*;
use tree_sitter_highlight::{HighlightConfiguration, HighlightEvent, Highlighter};

verus! {

#[verifier::external_type_specification]
#[verifier::external_body]
pub struct ExHighlighter(Highlighter);

/// A highlighted (or plain) range of the buffer's text, in bytes of the lines
/// joined by newlines. `code_type` indexes the recognised highlight names.
pub struct Highlight {
    pub code_type: Option<usize>,
    pub start_byte: usize,
    pub end_byte: usize,
}

/// One event of a highlighting pass.
pub enum HighlightStep {
    /// A run of source bytes.
    Source { start: usize, end: usize },
    /// A highlight with the given name index begins.
    Start(usize),
    /// The innermost highlight ends.
    End,
}

/// The highlights that the events `steps` describe, and whether a highlight
/// is open after them. A source run outside any highlight becomes a plain range;
/// inside one it gives its range to the highlight that is open.
pub open spec fn fold_steps(steps: Seq<HighlightStep>) -> (Seq<Highlight>, bool)
    decreases steps.len(),
{
    if steps.len() == 0 {
        (seq![], false)
    } else {
        let (hs, open) = fold_steps(steps.drop_last());
        match steps.last() {
            HighlightStep::Source { start, end } => if !open {
                (hs.push(Highlight { code_type: None, start_byte: start, end_byte: end }), open)
            } else {
                (
                    hs.update(
                        hs.len() - 1,
                        Highlight { code_type: hs.last().code_type, start_byte: start, end_byte: end },
                    ),
                    open,
                )
            },
            HighlightStep::Start(s) => (
                hs.push(Highlight { code_type: Some(s), start_byte: 0, end_byte: 0 }),
                true,
            ),
            HighlightStep::End => (hs, false),
        }
    }
}

/// The highlight indices that the `Start` events of `steps` carry, in order.
pub open spec fn started_indices(steps: Seq<HighlightStep>) -> Seq<usize>
    decreases steps.len(),
{
    if steps.len() == 0 {
        seq![]
    } else {
        let rest = started_indices(steps.drop_last());
        match steps.last() {
            HighlightStep::Start(s) => rest.push(s),
            _ => rest,
        }
    }
}

/// The highlight indices of the ranges that carry one, in order.
pub open spec fn typed_indices(hs: Seq<Highlight>) -> Seq<usize>
    decreases hs.len(),
{
    if hs.len() == 0 {
        seq![]
    } else {
        let rest = typed_indices(hs.drop_last());
        match hs.last().code_type {
            Some(t) => rest.push(t),
            None => rest,
        }
    }
}

/// Every `Start` event opens a range of its own: the ranges that carry a
/// highlight index are exactly one per `Start` event, in the same order and with
/// the same indices, whether or not another highlight is open at the time. While
/// a highlight is open, the last range carries the index of the latest `Start`.
/// After a `Source` event the last range covers exactly that event's bytes, with
/// the open highlight's index, or none when no highlight is open.
pub proof fn law_each_start_opens_a_range(steps: Seq<HighlightStep>)
    ensures
        typed_indices(fold_steps(steps).0) == started_indices(steps),
        fold_steps(steps).1 ==> fold_steps(steps).0.len() > 0,
        fold_steps(steps).1 ==> fold_steps(steps).0.last().code_type == Some(started_indices(steps).last()),
        steps.len() > 0 ==> (steps.last() matches HighlightStep::Source { start, end } ==> {
            let hs = fold_steps(steps).0;
            &&& hs.len() > 0
            &&& hs.last().start_byte == start
            &&& hs.last().end_byte == end
            &&& hs.last().code_type == if fold_steps(steps.drop_last()).1 {
                Some(started_indices(steps).last())
            } else {
                None
            }
        }),
    decreases steps.len(),
{
    if steps.len() > 0 {
        let pre = steps.drop_last();
        law_each_start_opens_a_range(pre);
        let (hs, open) = fold_steps(pre);
        match steps.last() {
            HighlightStep::Source { start, end } => {
                if open {
                    let n = hs.len() - 1;
                    let h2 = hs.update(n, Highlight { code_type: hs.last().code_type, start_byte: start, end_byte: end });
                    assert(h2.drop_last() =~= hs.drop_last());
                    assert(typed_indices(h2) == typed_indices(hs));
                } else {
                    let h2 = hs.push(Highlight { code_type: None, start_byte: start, end_byte: end });
                    assert(h2.drop_last() =~= hs);
                }
            },
            HighlightStep::Start(x) => {
                let h2 = hs.push(Highlight { code_type: Some(x), start_byte: 0, end_byte: 0 });
                assert(h2.drop_last() =~= hs);
            },
            HighlightStep::End => {},
        }
    }
}

/// The highlight ranges that a stream of highlighting events describes.
pub fn highlights_from_steps(steps: &Vec<HighlightStep>) -> (r: Vec<Highlight>)
    ensures
        r@ == fold_steps(steps@).0,
{
    let mut out: Vec<Highlight> = Vec::new();
    let mut no_highlight = true;
    let mut i: usize = 0;
    while i < steps.len()
        invariant
            i <= steps@.len(),
            (out@, !no_highlight) == fold_steps(steps@.subrange(0, i as int)),
            !no_highlight ==> out@.len() > 0,
        decreases steps@.len() - i,
    {
        proof {
            let pre = steps@.subrange(0, i + 1);
            assert(pre.drop_last() =~= steps@.subrange(0, i as int));
            assert(pre.last() == steps@[i as int]);
        }
        match &steps[i] {
            HighlightStep::Source { start, end } => {
                if no_highlight {
                    out.push(Highlight { code_type: None, start_byte: *start, end_byte: *end });
                } else {
                    let k = out.len() - 1;
                    let code_type = out[k].code_type;
                    out.set(k, Highlight { code_type, start_byte: *start, end_byte: *end });
                }
            },
            HighlightStep::Start(s) => {
                out.push(Highlight { code_type: Some(*s), start_byte: 0, end_byte: 0 });
                no_highlight = false;
            },
            HighlightStep::End => {
                no_highlight = true;
            },
        }
        i = i + 1;
    }
    proof {
        assert(steps@.subrange(0, steps@.len() as int) =~= steps@);
    }
    out
}

/// The names of the highlights that the editor colours, in the order of their
/// indices: a highlight's `code_type` is its name's position here.
pub open spec fn highlight_name_list() -> Seq<Seq<char>> {
    seq![
        "function"@,
        "function.method"@,
        "function.macro"@,
        "type"@,
        "type.builtin"@,
        "constructor"@,
        "keyword"@,
        "escape"@,
        "constant.builtin"@,
        "property"@,
        "operator"@,
        "comment"@,
        "string"@,
        "punctuation"@,
    ]
}

/// The views of a list of names.
pub open spec fn names_view(names: Seq<&'static str>) -> Seq<Seq<char>> {
    names.map_values(|n: &'static str| n@)
}

/// The names of the highlights that the editor colours, in the order of their indices.
pub fn recognized_highlight_names() -> (r: Vec<&'static str>)
    ensures
        names_view(r@) == highlight_name_list(),
{
    let r = vec![
        "function",
        "function.method",
        "function.macro",
        "type",
        "type.builtin",
        "constructor",
        "keyword",
        "escape",
        "constant.builtin",
        "property",
        "operator",
        "comment",
        "string",
        "punctuation",
    ];
    assert(names_view(r@) =~= highlight_name_list());
    r
}

/// The events of a highlighting pass over `source` with the tree-sitter Rust
/// grammar and highlight query, reporting the highlight names `names`; `None`
/// where the pass fails.
pub uninterp spec fn rust_highlight_events(names: Seq<Seq<char>>, source: Seq<u8>) -> Option<Seq<HighlightStep>>;

/// The events of a highlighting pass over `source` with the tree-sitter Python
/// grammar and highlight query, reporting the highlight names `names`; `None`
/// where the pass fails.
pub uninterp spec fn python_highlight_events(names: Seq<Seq<char>>, source: Seq<u8>) -> Option<Seq<HighlightStep>>;

/// The events gathered, as a sequence.
pub open spec fn steps_view(r: Option<Vec<HighlightStep>>) -> Option<Seq<HighlightStep>> {
    match r {
        Some(v) => Some(v@),
        None => None,
    }
}

/// A fresh `tree_sitter_highlight::Highlighter::new()`.
#[verifier::external_body]
pub(crate) fn new_highlighter() -> Highlighter {
    Highlighter::new()
}

/// `HighlightConfiguration::new` for the tree-sitter Rust grammar and its highlight
/// query, `configure`d with `names`, then `Highlighter::highlight` over `source`
/// with its events gathered. The result is named: it is `None` where the query
/// does not compile, the pass fails or one of its events is an error, and otherwise
/// the events, which rest on the grammar, the query, the names and the source.
/// The highlighter's parser state after the pass is not stated. The crate's own
/// assertions inside a pass (that it has a layer, that a peeked capture is there)
/// are invariants of its iterator; no input is known on which they fail.
#[verifier::external_body]
pub(crate) fn highlight_rust(
    highlighter: &mut Highlighter,
    names: &Vec<&'static str>,
    source: &[u8],
) -> (r: Option<Vec<HighlightStep>>)
    ensures
        steps_view(r) == rust_highlight_events(names_view(names@), source@),
{
    let mut c = HighlightConfiguration::new(tree_sitter_rust::language(), tree_sitter_rust::HIGHLIGHT_QUERY, "", "").ok()?;
    c.configure(names.as_slice());
    let events = highlighter.highlight(&c, source, None, |_| None).ok()?;
    let steps = events.map(|e| match e.ok()? {
        HighlightEvent::Source { start, end } => Some(HighlightStep::Source { start, end }),
        HighlightEvent::HighlightStart(h) => Some(HighlightStep::Start(h.0)),
        HighlightEvent::HighlightEnd => Some(HighlightStep::End),
    }).collect();
    steps
}

/// As `highlight_rust`, with the tree-sitter Python grammar and its highlight query.
#[verifier::external_body]
pub(crate) fn highlight_python(
    highlighter: &mut Highlighter,
    names: &Vec<&'static str>,
    source: &[u8],
) -> (r: Option<Vec<HighlightStep>>)
    ensures
        steps_view(r) == python_highlight_events(names_view(names@), source@),
{
    let mut c = HighlightConfiguration::new(tree_sitter_python::language(), tree_sitter_python::HIGHLIGHT_QUERY, "", "").ok()?;
    c.configure(names.as_slice());
    let events = highlighter.highlight(&c, source, None, |_| None).ok()?;
    let steps = events.map(|e| match e.ok()? {
        HighlightEvent::Source { start, end } => Some(HighlightStep::Source { start, end }),
        HighlightEvent::HighlightStart(h) => Some(HighlightStep::Start(h.0)),
        HighlightEvent::HighlightEnd => Some(HighlightStep::End),
    }).collect();
    steps
}

} // verus!
