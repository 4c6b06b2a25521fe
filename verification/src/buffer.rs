//! A text buffer: lines of UTF-8 text, a cursor, an optional selection, and the
//! syntax highlights of the text. Columns are byte offsets into a line.

use vstd::prelude::*;
use vstd::utf8::*;
use vstd::string::*;
use tree_sitter_highlight::Highlighter;
use crate::utf8_lines::{
    byte_len, bytes, char_width_at, join_lines, join_with_newlines, lemma_boundary_at_prefix,
    lemma_boundary_range, lemma_bytes_concat, lemma_split_line,
    lines_of, newline_split, split_newlines, text_lines, string_insert, string_remove, strings_bytes, to_owned_string,
};
pub use crate::highlight::Highlight;
use crate::word_boundaries::{
    backward_word_pattern, backward_word_stops, forward_word_pattern, forward_word_stops,
    regex_match_starts, stops_on_boundaries,
};
use crate::highlight::{
    fold_steps, highlight_name_list, highlight_python, highlight_rust, highlights_from_steps,
    new_highlighter, python_highlight_events, recognized_highlight_names, rust_highlight_events,
    steps_view, HighlightStep,
};

verus! {

broadcast use vstd::utf8::group_utf8_lib;

/// A position in a buffer: a row and a byte column.
pub type Position = (usize, usize);

/// `true` when `a` comes strictly after `b` in reading order.
pub open spec fn pos_after(a: Position, b: Position) -> bool {
    a.0 > b.0 || (a.0 == b.0 && a.1 > b.1)
}

/// The two positions, the earlier one first.
pub open spec fn ordered(a: Position, b: Position) -> (Position, Position) {
    if pos_after(a, b) {
        (b, a)
    } else {
        (a, b)
    }
}

/// A range of text between two positions, in the order the user made it.
pub struct BufferRange {
    pub p1: Position,
    pub p2: Position,
}

impl BufferRange {
    pub fn new(p1: Position, p2: Position) -> (r: Self)
        ensures
            r.p1 == p1,
            r.p2 == p2,
    {
        Self { p1, p2 }
    }

    /// The two ends of the range, the earlier one first.
    pub fn start_end(&self) -> (r: (Position, Position))
        ensures
            r == ordered(self.p1, self.p2),
    {
        if self.p1.0 > self.p2.0 {
            (self.p2, self.p1)
        } else if self.p2.0 > self.p1.0 {
            (self.p1, self.p2)
        } else if self.p1.1 > self.p2.1 {
            (self.p2, self.p1)
        } else {
            (self.p1, self.p2)
        }
    }
}

/// The editing cursor: a row and a byte column. The column may lie past the end
/// of its line; edits then happen at the end of the line.
#[derive(Clone, Copy)]
pub struct Cursor(pub usize, pub usize);

/// What a buffer holds, as the contracts speak of it.
pub struct BufferState {
    /// The UTF-8 bytes of each line.
    pub lines: Seq<Seq<u8>>,
    pub cursor: Position,
    /// The selection's two ends, in the order the user made them.
    pub selection: Option<(Position, Position)>,
}

/// Every line is valid UTF-8.
pub open spec fn valid_text(ls: Seq<Seq<u8>>) -> bool {
    forall|i: int| 0 <= i < ls.len() ==> valid_utf8(#[trigger] ls[i])
}

/// The column where an edit at `p` happens: `p`'s column, at most the line's length.
pub open spec fn clamp_col(s: BufferState, p: Position) -> usize {
    if p.1 <= s.lines[p.0 as int].len() {
        p.1
    } else {
        s.lines[p.0 as int].len() as usize
    }
}

/// The position where an edit at `p` happens.
pub open spec fn edit_pos(s: BufferState, p: Position) -> Position {
    (p.0, clamp_col(s, p))
}

/// `p` names a row of the buffer and a character boundary of that row.
pub open spec fn on_boundary(s: BufferState, p: Position) -> bool {
    p.0 < s.lines.len() && is_char_boundary(s.lines[p.0 as int], p.1 as int)
}

/// The selection, if any, can be cut out without splitting a character.
pub open spec fn can_delete_selection(s: BufferState) -> bool {
    match s.selection {
        None => true,
        Some((p1, p2)) => on_boundary(s, ordered(p1, p2).0) && on_boundary(s, ordered(p1, p2).1),
    }
}

/// The buffer with its selection cut out and the cursor at the selection's start.
pub open spec fn delete_selection_result(s: BufferState) -> BufferState {
    match s.selection {
        None => s,
        Some((p1, p2)) => {
            let (a, b) = ordered(p1, p2);
            let first = s.lines[a.0 as int];
            let last = s.lines[b.0 as int];
            BufferState {
                lines: s.lines.subrange(0, a.0 as int) + seq![
                    first.subrange(0, a.1 as int) + last.subrange(b.1 as int, last.len() as int),
                ] + s.lines.subrange(b.0 + 1, s.lines.len() as int),
                cursor: a,
                selection: None,
            }
        },
    }
}

/// After the selection is cut out, the cursor's row exists and its edit column
/// is a character boundary.
pub open spec fn can_edit_at_cursor(s: BufferState) -> bool {
    let t = delete_selection_result(s);
    &&& can_delete_selection(s)
    &&& t.cursor.0 < t.lines.len()
    &&& is_char_boundary(t.lines[t.cursor.0 as int], clamp_col(t, t.cursor) as int)
}

/// `c` typed at the cursor, replacing the selection.
pub open spec fn insert_character_result(s: BufferState, c: char) -> BufferState {
    let t = delete_selection_result(s);
    let (row, col) = edit_pos(t, t.cursor);
    let line = t.lines[row as int];
    BufferState {
        lines: t.lines.update(
            row as int,
            line.subrange(0, col as int) + bytes(seq![c]) + line.subrange(col as int, line.len() as int),
        ),
        cursor: (row, (col + 1) as usize),
        selection: None,
    }
}

/// A backspace can be applied: a selection can be cut out; or else the cursor
/// is at the very start, where nothing happens; or else its row exists and the
/// character before the cursor starts on a boundary.
pub open spec fn can_delete(s: BufferState) -> bool {
    match s.selection {
        Some(_) => can_delete_selection(s),
        None => {
            &&& (s.cursor.0 > 0 || s.cursor.1 > 0) ==> s.cursor.0 < s.lines.len()
            &&& s.cursor.1 > 0 ==> {
                let col = clamp_col(s, s.cursor);
                col > 0 && is_char_boundary(s.lines[s.cursor.0 as int], col - 1)
            }
        },
    }
}

/// A backspace: the selection is cut out; or else the character that starts one
/// byte before the cursor's edit column is removed; or else, at a line's start,
/// the line is joined to the one above.
pub open spec fn delete_result(s: BufferState) -> BufferState {
    match s.selection {
        Some(_) => delete_selection_result(s),
        None => {
            let row = s.cursor.0;
            let line = s.lines[row as int];
            if s.cursor.1 > 0 {
                let k = clamp_col(s, s.cursor) - 1;
                BufferState {
                    lines: s.lines.update(
                        row as int,
                        line.subrange(0, k) + line.subrange(k + char_width_at(line, k), line.len() as int),
                    ),
                    cursor: (row, k as usize),
                    selection: None,
                }
            } else if row > 0 {
                let prev = s.lines[row - 1];
                BufferState {
                    lines: s.lines.update(row - 1, prev + line).remove(row as int),
                    cursor: ((row - 1) as usize, prev.len() as usize),
                    selection: None,
                }
            } else {
                s
            }
        },
    }
}

/// Return pressed at the cursor: the line is split at the edit column and the
/// cursor goes to the start of the new line.
pub open spec fn insert_newline_result(s: BufferState) -> BufferState {
    let t = delete_selection_result(s);
    let (row, col) = edit_pos(t, t.cursor);
    let line = t.lines[row as int];
    BufferState {
        lines: t.lines.update(row as int, line.subrange(0, col as int)).insert(
            row + 1,
            line.subrange(col as int, line.len() as int),
        ),
        cursor: ((row + 1) as usize, 0),
        selection: None,
    }
}

/// The lines that replace line `row` when `text` is pasted at byte `col` of it:
/// the text's newline-separated pieces, the first after the line's head and the
/// last before the line's tail.
pub open spec fn pasted_lines(line: Seq<u8>, col: int, text: Seq<u8>) -> Seq<Seq<u8>> {
    let p = newline_split(text);
    let n = p.len() as int;
    let with_head = p.update(0, line.subrange(0, col) + p[0]);
    with_head.update(n - 1, with_head[n - 1] + line.subrange(col, line.len() as int))
}

/// `text` pasted at the cursor, replacing the selection; the cursor ends after
/// the pasted text.
pub open spec fn insert_string_result(s: BufferState, text: Seq<u8>) -> BufferState {
    let t = delete_selection_result(s);
    let (row, col) = edit_pos(t, t.cursor);
    let line = t.lines[row as int];
    let p = newline_split(text);
    let n = p.len() as int;
    let end_col = if n == 1 {
        col + p[0].len()
    } else {
        p[n - 1].len() as int
    };
    BufferState {
        lines: t.lines.subrange(0, row as int) + pasted_lines(line, col as int, text)
            + t.lines.subrange(row + 1, t.lines.len() as int),
        cursor: ((row + n - 1) as usize, end_col as usize),
        selection: None,
    }
}

/// The selection after a move from `start` to `end`: an existing selection keeps
/// its first end and moves its second; otherwise a new one spans the move.
/// Both ends are taken at their edit positions.
pub open spec fn update_selection_result(s: BufferState, start: Position, end: Position) -> BufferState {
    let p1 = edit_pos(s, start);
    let p2 = edit_pos(s, end);
    BufferState {
        selection: match s.selection {
            Some((a, _)) => Some((a, p2)),
            None => Some((p1, p2)),
        },
        ..s
    }
}

/// The cursor moved to `to` from where it was; with `highlight` the selection
/// follows the move, without it the selection is dropped.
pub open spec fn moved_to(s: BufferState, to: Position, highlight: bool) -> BufferState {
    let moved = BufferState { cursor: to, ..s };
    if highlight {
        update_selection_result(moved, s.cursor, to)
    } else {
        BufferState { selection: None, ..moved }
    }
}

pub open spec fn move_right_target(s: BufferState) -> Position {
    let (row, col) = edit_pos(s, s.cursor);
    if col < s.lines[row as int].len() {
        (row, (col + 1) as usize)
    } else if row < s.lines.len() - 1 {
        ((row + 1) as usize, 0)
    } else {
        (row, col)
    }
}

pub open spec fn move_left_target(s: BufferState) -> Position {
    let (row, col) = edit_pos(s, s.cursor);
    if col > 0 {
        (row, (col - 1) as usize)
    } else if row > 0 {
        ((row - 1) as usize, s.lines[row - 1].len() as usize)
    } else {
        (row, col)
    }
}

pub open spec fn move_up_target(s: BufferState) -> Position {
    if s.cursor.0 == 0 {
        s.cursor
    } else {
        ((s.cursor.0 - 1) as usize, s.cursor.1)
    }
}

/// Moving down from the last line changes nothing, not even the selection.
pub open spec fn move_down_result(s: BufferState, highlight: bool) -> BufferState {
    if s.cursor.0 < s.lines.len() - 1 {
        moved_to(s, ((s.cursor.0 + 1) as usize, s.cursor.1), highlight)
    } else {
        s
    }
}

/// The first of `stops` that lies after `col`.
pub open spec fn first_stop_after(stops: Seq<usize>, col: usize) -> Option<usize>
    decreases stops.len(),
{
    if stops.len() == 0 {
        None
    } else if stops[0] > col {
        Some(stops[0])
    } else {
        first_stop_after(stops.drop_first(), col)
    }
}

/// The first of `stops` whose successor lies at or after `col`.
pub open spec fn stop_before(stops: Seq<usize>, col: usize) -> Option<usize>
    decreases stops.len(),
{
    if stops.len() < 2 {
        None
    } else if stops[1] >= col {
        Some(stops[0])
    } else {
        stop_before(stops.drop_first(), col)
    }
}

/// The match starts of a stop pattern in a line given by its bytes; none where
/// the pattern does not compile.
pub open spec fn line_stops(pattern: Seq<char>, line: Seq<u8>) -> Seq<usize> {
    match regex_match_starts(pattern, decode_utf8(line)) {
        Some(v) => v,
        None => seq![],
    }
}

/// A forward word motion: to the first word stop after the cursor's edit column;
/// past the line's last stop, to the next line (at its first stop when it is
/// empty, else at its start); on the last line the cursor only takes its edit
/// position and the selection stays.
pub open spec fn forward_word_result(s: BufferState, highlight: bool) -> BufferState {
    let (row, col) = edit_pos(s, s.cursor);
    match first_stop_after(line_stops(forward_word_pattern(), s.lines[row as int]), col) {
        Some(m) => moved_to(s, (row, m), highlight),
        None => if row + 1 < s.lines.len() {
            let next = s.lines[row + 1];
            let stops = line_stops(forward_word_pattern(), next);
            let target = if next.len() == 0 && stops.len() > 0 {
                stops[0]
            } else {
                0
            };
            moved_to(s, ((row + 1) as usize, target), highlight)
        } else {
            BufferState { cursor: (row, col), ..s }
        },
    }
}

/// A backward word motion: from a line's start to the end of the line above (on
/// the first line nothing moves and the selection stays); else to the last word
/// stop whose successor lies at or after the cursor's edit column, the cursor
/// staying where it is when there is none.
pub open spec fn backward_word_result(s: BufferState, highlight: bool) -> BufferState {
    let (row, col) = edit_pos(s, s.cursor);
    if col == 0 {
        if row > 0 {
            moved_to(s, ((row - 1) as usize, s.lines[row - 1].len() as usize), highlight)
        } else {
            BufferState { cursor: (row, col), ..s }
        }
    } else {
        match stop_before(line_stops(backward_word_pattern(), s.lines[row as int]), col) {
            Some(m) => moved_to(s, (row, m), highlight),
            None => moved_to(s, s.cursor, highlight),
        }
    }
}

/// The languages the buffer can highlight.
#[derive(Clone, Copy, PartialEq, Eq, Structural)]
pub enum SourceLanguage {
    Rust,
    Python,
}

/// The language of a file extension: `rs` is Rust, `py` is Python.
pub open spec fn language_of_extension(ext: Seq<char>) -> Option<SourceLanguage> {
    if ext == "rs"@ {
        Some(SourceLanguage::Rust)
    } else if ext == "py"@ {
        Some(SourceLanguage::Python)
    } else {
        None
    }
}

/// The language a file is highlighted in, by its name's extension.
pub open spec fn highlight_language(file_name: Seq<char>) -> Option<SourceLanguage> {
    match path_extension(file_name) {
        Some(ext) => language_of_extension(ext),
        None => None,
    }
}

/// The extension of a file name, as `std::path::Path::extension` gives it.
pub uninterp spec fn path_extension(name: Seq<char>) -> Option<Seq<char>>;

/// `std::path::Path::new(name).extension()`, as a string. The contract names the
/// result; the rules of `Path` for what an extension is are not stated.
#[verifier::external_body]
fn file_extension(name: &str) -> (r: Option<String>)
    ensures
        match r {
            Some(e) => path_extension(name@) == Some(e@),
            None => path_extension(name@) == None::<Seq<char>>,
        },
{
    std::path::Path::new(name).extension().and_then(|e| e.to_str()).map(|e| e.to_string())
}

/// The language of a file extension.
pub fn language_for_extension(ext: &str) -> (r: Option<SourceLanguage>)
    ensures
        r == language_of_extension(ext@),
{
    let e = to_owned_string(ext);
    if e == "rs".to_owned() {
        Some(SourceLanguage::Rust)
    } else if e == "py".to_owned() {
        Some(SourceLanguage::Python)
    } else {
        None
    }
}

/// The events of a highlighting pass over `source` in `language`, reporting the
/// editor's highlight names.
pub open spec fn highlight_events(language: SourceLanguage, source: Seq<u8>) -> Option<Seq<HighlightStep>> {
    match language {
        SourceLanguage::Rust => rust_highlight_events(highlight_name_list(), source),
        SourceLanguage::Python => python_highlight_events(highlight_name_list(), source),
    }
}

/// The highlights of `source` in `language`: the ranges that its highlighting
/// events describe, and none where the pass fails.
pub open spec fn expected_highlights(language: SourceLanguage, source: Seq<u8>) -> Seq<Highlight> {
    match highlight_events(language, source) {
        Some(steps) => fold_steps(steps).0,
        None => seq![],
    }
}

/// One highlighting pass over `source` in `language`.
fn highlight_pass(
    highlighter: &mut Highlighter,
    language: SourceLanguage,
    source: &[u8],
) -> (r: Option<Vec<HighlightStep>>)
    ensures
        steps_view(r) == highlight_events(language, source@),
{
    let names = recognized_highlight_names();
    match language {
        SourceLanguage::Rust => highlight_rust(highlighter, &names, source),
        SourceLanguage::Python => highlight_python(highlighter, &names, source),
    }
}

/// Once a selection whose ends lie on boundaries is cut out, the cursor sits at
/// a boundary of the joined line.
proof fn lemma_selection_start_editable(s: BufferState)
    requires
        valid_text(s.lines),
        s.selection is Some,
        can_delete_selection(s),
    ensures
        can_edit_at_cursor(s),
{
    let (p1, p2) = s.selection.unwrap();
    let (a, b) = ordered(p1, p2);
    let first = s.lines[a.0 as int];
    let last = s.lines[b.0 as int];
    assert(valid_utf8(first));
    assert(valid_utf8(last));
    lemma_split_line(first, a.1 as int);
    lemma_split_line(last, b.1 as int);
    let head = first.subrange(0, a.1 as int);
    let tail = last.subrange(b.1 as int, last.len() as int);
    let x = decode_utf8(head);
    let y = decode_utf8(tail);
    lemma_bytes_concat(x, y);
    lemma_boundary_at_prefix(x, y);
    assert(head + tail == bytes(x + y));
    let t = delete_selection_result(s);
    assert(t.lines[a.0 as int] == head + tail);
    assert(clamp_col(t, t.cursor) == a.1);
}

/// The stops found, or none where the pattern did not compile.
fn stops_or_empty(stops: Option<Vec<usize>>) -> (r: Vec<usize>)
    ensures
        r@ == match stops {
            Some(v) => v@,
            None => Seq::<usize>::empty(),
        },
{
    match stops {
        Some(v) => v,
        None => Vec::new(),
    }
}

/// A buffer of text lines with a cursor, a selection and syntax highlights.
pub struct Buffer {
    file: String,
    lines: Vec<String>,
    cursor: Cursor,
    selection: Option<BufferRange>,
    language: Option<SourceLanguage>,
    highlighter: Highlighter,
    highlights: Vec<Highlight>,
}

impl View for Buffer {
    type V = BufferState;

    closed spec fn view(&self) -> BufferState {
        BufferState {
            lines: strings_bytes(self.lines@),
            cursor: (self.cursor.0, self.cursor.1),
            selection: match self.selection {
                Some(r) => Some((r.p1, r.p2)),
                None => None,
            },
        }
    }
}

/// The buffer's highlights are those of its current text, when it is highlighted.
pub open spec fn highlights_current(b: &Buffer) -> bool {
    match b.language() {
        Some(l) => b.highlights() == expected_highlights(l, join_lines(b@.lines)),
        None => true,
    }
}

/// An edit or motion changed the text state only: the file name and the
/// highlighting language stay, without highlighting the highlights stay too, and
/// highlights that were those of the text still are.
pub open spec fn same_setting(old: &Buffer, new: &Buffer) -> bool {
    &&& new.file_name() == old.file_name()
    &&& new.language() == old.language()
    &&& !old.highlighted() ==> new.highlights() == old.highlights()
    &&& highlights_current(old) ==> highlights_current(new)
    &&& valid_text(new@.lines)
}

impl Buffer {
    /// The name of the file the buffer was loaded from.
    pub closed spec fn file_name(&self) -> Seq<char> {
        self.file@
    }

    /// The language the buffer's text is highlighted in, if any.
    pub closed spec fn language(&self) -> Option<SourceLanguage> {
        self.language
    }

    /// The buffer is syntax highlighted.
    pub open spec fn highlighted(&self) -> bool {
        self.language() is Some
    }

    /// The current highlight ranges.
    pub closed spec fn highlights(&self) -> Seq<Highlight> {
        self.highlights@
    }

    proof fn lemma_valid(&self)
        ensures
            valid_text(self@.lines),
    {
        assert forall|i: int| 0 <= i < self@.lines.len() implies valid_utf8(
            #[trigger] self@.lines[i],
        ) by {
            encode_utf8_valid_utf8(self.lines@[i]@);
        }
    }

    /// A buffer holding `source`, the text of the file `file_name`, split into
    /// its lines, with the cursor at the start and no selection. Files ending in
    /// `.rs` and `.py` are highlighted, in Rust and in Python.
    pub fn from_source(file_name: &str, source: &str) -> (r: Buffer)
        ensures
            r@ == (BufferState { lines: lines_of(bytes(source@)), cursor: (0, 0), selection: None }),
            r.file_name() == file_name@,
            r.language() == highlight_language(file_name@),
            !r.highlighted() ==> r.highlights() == Seq::<Highlight>::empty(),
            highlights_current(&r),
            valid_text(r@.lines),
    {
        let lines = text_lines(source);
        let mut language: Option<SourceLanguage> = None;
        if let Some(extension) = file_extension(file_name) {
            language = language_for_extension(extension.as_str());
        }
        let mut buffer = Buffer {
            file: to_owned_string(file_name),
            lines,
            cursor: Cursor(0, 0),
            selection: None,
            language,
            highlighter: new_highlighter(),
            highlights: Vec::new(),
        };
        proof {
            buffer.lemma_valid();
        }
        if buffer.language.is_some() {
            buffer.update_highlights();
        }
        buffer
    }

    /// The lines of the buffer.
    pub fn lines(&self) -> (r: &[String])
        ensures
            strings_bytes(r@) == self@.lines,
    {
        self.lines.as_slice()
    }

    /// The cursor.
    pub fn cursor(&self) -> (r: Cursor)
        ensures
            (r.0, r.1) == self@.cursor,
    {
        self.cursor
    }

    /// The selection's two ends, in the order the user made them.
    pub fn selection(&self) -> (r: Option<(Position, Position)>)
        ensures
            r == self@.selection,
    {
        match &self.selection {
            Some(range) => Some((range.p1, range.p2)),
            None => None,
        }
    }

    /// The highlight ranges of the buffer's text.
    pub fn highlight_ranges(&self) -> (r: &[Highlight])
        ensures
            r@ == self.highlights(),
    {
        self.highlights.as_slice()
    }

    /// The buffer's text: its lines joined by newlines, as it is saved.
    pub fn contents(&self) -> (r: String)
        ensures
            bytes(r@) == join_lines(self@.lines),
    {
        join_with_newlines(&self.lines)
    }

    /// The name of the file the buffer was loaded from.
    pub fn file(&self) -> (r: &str)
        ensures
            r@ == self.file_name(),
    {
        self.file.as_str()
    }

    /// Highlights the text again, when the buffer is highlighted. Where the
    /// highlighter fails, the buffer is left without highlights.
    pub fn update_highlights(&mut self)
        ensures
            final(self)@ == old(self)@,
            same_setting(old(self), final(self)),
            highlights_current(final(self)),
    {
        proof {
            self.lemma_valid();
        }
        if let Some(language) = self.language {
            let text = join_with_newlines(&self.lines);
            let steps = highlight_pass(&mut self.highlighter, language, text.as_str().as_bytes());
            match steps {
                Some(steps) => {
                    self.highlights = highlights_from_steps(&steps);
                },
                None => {
                    self.highlights = Vec::new();
                },
            }
        }
    }

    /// The position where an edit at `cursor` happens: its column at most the
    /// length of its line.
    pub fn editing_position(&self, cursor: Cursor) -> (r: Position)
        requires
            cursor.0 < self@.lines.len(),
        ensures
            r == edit_pos(self@, (cursor.0, cursor.1)),
    {
        let row = cursor.0;
        let len = byte_len(&self.lines[row]);
        let col = if cursor.1 < len { cursor.1 } else { len };
        (row, col)
    }

    /// Types `character` at the cursor, replacing the selection.
    pub fn insert_character(&mut self, character: char)
        requires
            can_edit_at_cursor(old(self)@),
        ensures
            final(self)@ == insert_character_result(old(self)@, character),
            same_setting(old(self), final(self)),
            highlights_current(final(self)),
    {
        self.delete_selection();
        let (row, col) = self.editing_position(self.cursor);
        proof {
            self.lemma_valid();
        }
        string_insert(&mut self.lines[row], col, character);
        let new_len = byte_len(&self.lines[row]);
        assert(bytes(seq![character]).len() > 0) by {
            encode_utf8_first_scalar(seq![character]);
        }
        self.cursor = Cursor(row, col + 1);
        proof {
            assert(self@.lines =~= insert_character_result(old(self)@, character).lines);
        }
        self.update_highlights();
    }

    /// Backspace: cuts out the selection; or else removes the character before
    /// the cursor; or else, at the start of a line, joins it to the line above.
    pub fn delete(&mut self)
        requires
            can_delete(old(self)@),
        ensures
            final(self)@ == delete_result(old(self)@),
            same_setting(old(self), final(self)),
            highlights_current(final(self)),
    {
        proof {
            self.lemma_valid();
        }
        if self.selection.is_some() {
            self.delete_selection();
        } else {
            let row = self.cursor.0;
            if self.cursor.1 > 0 {
                let len = byte_len(&self.lines[row]);
                let col = if self.cursor.1 < len { self.cursor.1 } else { len };
                let k = col - 1;
                let _removed = string_remove(&mut self.lines[row], k);
                self.cursor = Cursor(row, k);
                proof {
                    assert(self@.lines =~= delete_result(old(self)@).lines);
                }
            } else if row > 0 {
                let current_line = self.lines.remove(row);
                let ghost prev = self.lines@[row - 1]@;
                let prev_len = byte_len(&self.lines[row - 1]);
                self.lines[row - 1].append(current_line.as_str());
                self.cursor = Cursor(row - 1, prev_len);
                proof {
                    lemma_bytes_concat(prev, current_line@);
                    assert(self@.lines =~= delete_result(old(self)@).lines);
                }
            }
        }
        proof {
            self.lemma_valid();
        }
        self.update_highlights();
    }

    /// Return: splits the line at the cursor, replacing the selection first.
    pub fn insert_newline(&mut self)
        requires
            can_edit_at_cursor(old(self)@),
        ensures
            final(self)@ == insert_newline_result(old(self)@),
            same_setting(old(self), final(self)),
            highlights_current(final(self)),
    {
        self.delete_selection();
        let (row, col) = self.editing_position(self.cursor);
        proof {
            self.lemma_valid();
        }
        let nlines = self.lines.len();
        assert(row < nlines);
        let (before, after) = self.lines[row].as_str().split_at(col);
        let before = to_owned_string(before);
        let after = to_owned_string(after);
        self.lines.set(row, before);
        self.lines.insert(row + 1, after);
        self.cursor = Cursor(row + 1, 0);
        proof {
            assert(self@.lines =~= insert_newline_result(old(self)@).lines);
        }
        self.update_highlights();
    }

    /// Pastes `text` at the cursor, replacing the selection; the cursor ends after
    /// the pasted text.
    pub fn insert_string(&mut self, text: &str)
        requires
            can_edit_at_cursor(old(self)@),
        ensures
            final(self)@ == insert_string_result(old(self)@, bytes(text@)),
            same_setting(old(self), final(self)),
            highlights_current(final(self)),
    {
        self.delete_selection();
        let (row, col) = self.editing_position(self.cursor);
        proof {
            self.lemma_valid();
        }
        let ghost line = self@.lines[row as int];
        let nlines = self.lines.len();
        assert(row < nlines);
        let (preceding_text, following_text) = self.lines[row].as_str().split_at(col);
        let preceding_text = to_owned_string(preceding_text);
        let following_text = to_owned_string(following_text);
        let mut pieces = split_newlines(text);
        let ghost p = strings_bytes(pieces@);
        let n = pieces.len();
        let first = preceding_text.concat(pieces[0].as_str());
        proof {
            lemma_bytes_concat(preceding_text@, pieces@[0]@);
        }
        pieces.set(0, first);
        let ghost with_head = strings_bytes(pieces@);
        let end_column = byte_len(&pieces[n - 1]);
        let last = pieces[n - 1].clone().concat(following_text.as_str());
        proof {
            lemma_bytes_concat(pieces@[n - 1]@, following_text@);
        }
        pieces.set(n - 1, last);
        proof {
            assert(with_head =~= p.update(0, line.subrange(0, col as int) + p[0]));
            assert(strings_bytes(pieces@) =~= pasted_lines(line, col as int, bytes(text@)));
        }
        let mut tail = self.lines.split_off(row + 1);
        self.lines.truncate(row);
        self.lines.append(&mut pieces);
        self.lines.append(&mut tail);
        let total = self.lines.len();
        assert(total >= row + n);
        self.cursor = Cursor(row + n - 1, end_column);
        proof {
            let r = insert_string_result(old(self)@, bytes(text@));
            assert(self@.lines =~= r.lines);
            self.lemma_valid();
        }
        self.update_highlights();
    }

    /// Sets the selection for a move from `start` to `end`: an existing selection
    /// keeps its first end and takes `end` as its second; otherwise a new one
    /// spans the move. Both ends are taken at their edit positions.
    pub fn update_selection(&mut self, start: Position, end: Position)
        requires
            start.0 < old(self)@.lines.len(),
            end.0 < old(self)@.lines.len(),
        ensures
            final(self)@ == update_selection_result(old(self)@, start, end),
            same_setting(old(self), final(self)),
            final(self).highlights() == old(self).highlights(),
    {
        proof {
            self.lemma_valid();
        }
        let p1 = self.editing_position(Cursor(start.0, start.1));
        let p2 = self.editing_position(Cursor(end.0, end.1));
        match &self.selection {
            Some(selection) => {
                let first = selection.p1;
                self.selection = Some(BufferRange { p1: first, p2 });
            },
            None => {
                self.selection = Some(BufferRange { p1, p2 });
            },
        }
    }

    /// Puts the cursor at `to` after a move from `from`; with `highlight` the
    /// selection follows the move, without it the selection is dropped.
    fn finish_move(&mut self, from: Position, to: Position, highlight: bool)
        requires
            highlight ==> from.0 < old(self)@.lines.len() && to.0 < old(self)@.lines.len(),
            from == old(self)@.cursor,
        ensures
            final(self)@ == moved_to(old(self)@, to, highlight),
            same_setting(old(self), final(self)),
            final(self).highlights() == old(self).highlights(),
    {
        proof {
            self.lemma_valid();
        }
        self.cursor = Cursor(to.0, to.1);
        if highlight {
            self.update_selection(from, to);
        } else {
            self.selection = None;
        }
    }

    /// Moves the cursor one byte right, or to the start of the next line.
    pub fn move_right(&mut self, highlight: bool)
        requires
            old(self)@.cursor.0 < old(self)@.lines.len(),
        ensures
            final(self)@ == moved_to(old(self)@, move_right_target(old(self)@), highlight),
            same_setting(old(self), final(self)),
            final(self).highlights() == old(self).highlights(),
    {
        let p1 = (self.cursor.0, self.cursor.1);
        let (row, col) = self.editing_position(self.cursor);
        let len = byte_len(&self.lines[row]);
        let to = if col < len {
            (row, col + 1)
        } else if row < self.lines.len() - 1 {
            (row + 1, 0)
        } else {
            (row, col)
        };
        self.finish_move(p1, to, highlight);
    }

    /// Moves the cursor one byte left, or to the end of the previous line.
    pub fn move_left(&mut self, highlight: bool)
        requires
            old(self)@.cursor.0 < old(self)@.lines.len(),
        ensures
            final(self)@ == moved_to(old(self)@, move_left_target(old(self)@), highlight),
            same_setting(old(self), final(self)),
            final(self).highlights() == old(self).highlights(),
    {
        let p1 = (self.cursor.0, self.cursor.1);
        let (row, col) = self.editing_position(self.cursor);
        let to = if col > 0 {
            (row, col - 1)
        } else if row > 0 {
            (row - 1, byte_len(&self.lines[row - 1]))
        } else {
            (row, col)
        };
        self.finish_move(p1, to, highlight);
    }

    /// Moves the cursor one line up, keeping its column.
    pub fn move_up(&mut self, highlight: bool)
        requires
            highlight ==> old(self)@.cursor.0 < old(self)@.lines.len(),
        ensures
            final(self)@ == moved_to(old(self)@, move_up_target(old(self)@), highlight),
            same_setting(old(self), final(self)),
            final(self).highlights() == old(self).highlights(),
    {
        let p1 = (self.cursor.0, self.cursor.1);
        let row = self.cursor.0;
        let col = self.cursor.1;
        let to = if row == 0 {
            (row, col)
        } else {
            (row - 1, col)
        };
        self.finish_move(p1, to, highlight);
    }

    /// Moves the cursor one line down, keeping its column; on the last line
    /// nothing changes.
    pub fn move_down(&mut self, highlight: bool)
        requires
            old(self)@.lines.len() > 0,
        ensures
            final(self)@ == move_down_result(old(self)@, highlight),
            same_setting(old(self), final(self)),
            final(self).highlights() == old(self).highlights(),
    {
        proof {
            self.lemma_valid();
        }
        let p1 = (self.cursor.0, self.cursor.1);
        let row = self.cursor.0;
        let col = self.cursor.1;
        if row < self.lines.len() - 1 {
            self.finish_move(p1, (row + 1, col), highlight);
        }
    }

    /// Moves the cursor forward to the next word boundary or line end.
    pub fn move_forward_word(&mut self, highlight: bool)
        requires
            old(self)@.cursor.0 < old(self)@.lines.len(),
        ensures
            final(self)@ == forward_word_result(old(self)@, highlight),
            same_setting(old(self), final(self)),
            final(self).highlights() == old(self).highlights(),
            on_boundary(old(self)@, old(self)@.cursor) ==> on_boundary(final(self)@, final(self)@.cursor),
    {
        proof {
            self.lemma_valid();
        }
        let p1 = (self.cursor.0, self.cursor.1);
        let (row, col) = self.editing_position(self.cursor);
        let found = forward_word_stops(self.lines[row].as_str());
        let stops = stops_or_empty(found);
        proof {
            if on_boundary(self@, self@.cursor) {
                lemma_boundary_range(self@.lines[row as int], self.cursor.1 as int);
            }
        }
        let mut i: usize = 0;
        proof {
            assert(stops@.subrange(0, stops@.len() as int) =~= stops@);
        }
        while i < stops.len() && stops[i] <= col
            invariant
                i <= stops@.len(),
                first_stop_after(stops@, col) == first_stop_after(stops@.subrange(i as int, stops@.len() as int), col),
            decreases stops@.len() - i,
        {
            proof {
                let rest = stops@.subrange(i as int, stops@.len() as int);
                assert(rest.drop_first() =~= stops@.subrange(i + 1, stops@.len() as int));
            }
            i = i + 1;
        }
        if i < stops.len() {
            proof {
                assert(stops_on_boundaries(stops@, self.lines@[row as int]@));
                assert(is_char_boundary(self@.lines[row as int], stops@[i as int] as int));
            }
            self.finish_move(p1, (row, stops[i]), highlight);
        } else {
            proof {
                assert(stops@.subrange(i as int, stops@.len() as int) =~= Seq::<usize>::empty());
            }
            let nlines = self.lines.len();
            if row + 1 < nlines {
                let next_len = byte_len(&self.lines[row + 1]);
                let target = if next_len == 0 {
                    let next_found = forward_word_stops(self.lines[row + 1].as_str());
                    let next_stops = stops_or_empty(next_found);
                    if next_stops.len() > 0 {
                        proof {
                            assert(stops_on_boundaries(next_stops@, self.lines@[row + 1]@));
                            assert(is_char_boundary(self@.lines[row + 1], next_stops@[0] as int));
                        }
                        next_stops[0]
                    } else {
                        0
                    }
                } else {
                    0
                };
                self.finish_move(p1, (row + 1, target), highlight);
            } else {
                self.cursor = Cursor(row, col);
            }
        }
    }

    /// Moves the cursor back to the previous word boundary or line start.
    pub fn move_backward_word(&mut self, highlight: bool)
        requires
            old(self)@.cursor.0 < old(self)@.lines.len(),
        ensures
            final(self)@ == backward_word_result(old(self)@, highlight),
            same_setting(old(self), final(self)),
            final(self).highlights() == old(self).highlights(),
            on_boundary(old(self)@, old(self)@.cursor) ==> on_boundary(final(self)@, final(self)@.cursor),
    {
        proof {
            self.lemma_valid();
        }
        let p1 = (self.cursor.0, self.cursor.1);
        let (row, col) = self.editing_position(self.cursor);
        if col == 0 {
            if row > 0 {
                let prev_len = byte_len(&self.lines[row - 1]);
                self.finish_move(p1, (row - 1, prev_len), highlight);
            } else {
                self.cursor = Cursor(row, col);
            }
        } else {
            let found = backward_word_stops(self.lines[row].as_str());
            let stops = stops_or_empty(found);
            let n = stops.len();
            let mut i: usize = 0;
            proof {
                assert(stops@.subrange(0, n as int) =~= stops@);
            }
            while n > 0 && i < n - 1 && stops[i + 1] < col
                invariant
                    n == stops@.len(),
                    i <= n,
                    n > 0 ==> i < n,
                    stop_before(stops@, col) == stop_before(stops@.subrange(i as int, n as int), col),
                decreases n - i,
            {
                proof {
                    let rest = stops@.subrange(i as int, n as int);
                    assert(rest.drop_first() =~= stops@.subrange(i + 1, n as int));
                    assert(rest[1] == stops@[i + 1]);
                }
                i = i + 1;
            }
            proof {
                let rest = stops@.subrange(i as int, n as int);
                if n > 0 && i < n - 1 {
                    assert(rest[0] == stops@[i as int]);
                    assert(rest[1] == stops@[i + 1]);
                }
            }
            let target = if n > 0 && i < n - 1 {
                proof {
                    assert(stops_on_boundaries(stops@, self.lines@[row as int]@));
                    assert(is_char_boundary(self@.lines[row as int], stops@[i as int] as int));
                }
                (row, stops[i])
            } else {
                p1
            };
            self.finish_move(p1, target, highlight);
        }
    }

    /// Puts the cursor at `p` and drops the selection, as a click does.
    pub fn place_cursor(&mut self, p: Position)
        ensures
            final(self)@ == (BufferState { cursor: p, selection: None, ..old(self)@ }),
            same_setting(old(self), final(self)),
            final(self).highlights() == old(self).highlights(),
    {
        proof {
            self.lemma_valid();
        }
        self.cursor = Cursor(p.0, p.1);
        self.selection = None;
    }

    /// Selects from `start` to `end` and puts the cursor at `end`, as a drag does.
    pub fn select(&mut self, start: Position, end: Position)
        ensures
            final(self)@ == (BufferState { cursor: end, selection: Some((start, end)), ..old(self)@ }),
            same_setting(old(self), final(self)),
            final(self).highlights() == old(self).highlights(),
    {
        proof {
            self.lemma_valid();
        }
        self.selection = Some(BufferRange::new(start, end));
        self.cursor = Cursor(end.0, end.1);
    }

    /// `true` when `p` names a row of the buffer and a character boundary in it.
    pub fn is_boundary(&self, p: Position) -> (r: bool)
        ensures
            r == on_boundary(self@, p),
    {
        proof {
            self.lemma_valid();
        }
        if p.0 < self.lines.len() {
            let line = self.lines[p.0].as_str();
            line.is_char_boundary(p.1)
        } else {
            false
        }
    }

    /// `true` when the selection, if any, can be cut out.
    pub fn can_delete_selection(&self) -> (r: bool)
        ensures
            r == can_delete_selection(self@),
    {
        match &self.selection {
            Some(range) => {
                let (a, b) = range.start_end();
                self.is_boundary(a) && self.is_boundary(b)
            },
            None => true,
        }
    }

    /// `true` when an edit at the cursor can be made: the selection can be cut
    /// out, and then the cursor's row exists and its edit column is a boundary.
    pub fn can_edit_at_cursor(&self) -> (r: bool)
        ensures
            r == can_edit_at_cursor(self@),
    {
        proof {
            self.lemma_valid();
        }
        match &self.selection {
            Some(range) => {
                let (a, b) = range.start_end();
                let ok = self.is_boundary(a) && self.is_boundary(b);
                proof {
                    if ok {
                        lemma_selection_start_editable(self@);
                    }
                }
                ok
            },
            None => {
                if self.cursor.0 < self.lines.len() {
                    let (row, col) = self.editing_position(self.cursor);
                    self.lines[row].as_str().is_char_boundary(col)
                } else {
                    false
                }
            },
        }
    }

    /// `true` when a backspace can be applied.
    pub fn can_delete(&self) -> (r: bool)
        ensures
            r == can_delete(self@),
    {
        proof {
            self.lemma_valid();
        }
        if self.selection.is_some() {
            self.can_delete_selection()
        } else if self.cursor.0 < self.lines.len() {
            if self.cursor.1 > 0 {
                let (row, col) = self.editing_position(self.cursor);
                col > 0 && self.lines[row].as_str().is_char_boundary(col - 1)
            } else {
                true
            }
        } else {
            self.cursor.0 == 0 && self.cursor.1 == 0
        }
    }

    /// Cuts out the selection, if there is one, and puts the cursor at its start.
    pub fn delete_selection(&mut self)
        requires
            can_delete_selection(old(self)@),
        ensures
            final(self)@ == delete_selection_result(old(self)@),
            final(self).file_name() == old(self).file_name(),
            final(self).language() == old(self).language(),
            final(self).highlights() == old(self).highlights(),
            valid_text(final(self)@.lines),
    {
        proof {
            self.lemma_valid();
        }
        if let Some(selection) = self.selection.take() {
            let (start, end) = selection.start_end();
            let ghost ls = self@.lines;
            let head = to_owned_string(self.lines[start.0].as_str().split_at(start.1).0);
            let rest = self.lines[end.0].as_str().split_at(end.1).1;
            proof {
                lemma_bytes_concat(head@, rest@);
            }
            let merged = head.concat(rest);
            assert(end.0 < self.lines.len());
            let mut tail = self.lines.split_off(end.0 + 1);
            self.lines.truncate(start.0);
            self.lines.push(merged);
            self.lines.append(&mut tail);
            self.cursor = Cursor(start.0, start.1);
            proof {
                let r = delete_selection_result(old(self)@);
                assert(self@.lines =~= r.lines);
                self.lemma_valid();
            }
        }
    }
}

} // verus!
