//! Properties of buffer edits that span several operations.

use vstd::prelude::*;
use vstd::utf8::*;
use crate::buffer::{
    can_delete, can_edit_at_cursor, clamp_col, delete_result, edit_pos, first_stop_after,
    forward_word_result, insert_character_result, insert_newline_result, insert_string_result,
    line_stops, move_left_target, move_right_target, moved_to, ordered, pasted_lines, pos_after, valid_text, BufferState,
};
use crate::utf8_lines::{
    bytes, char_width_at, cr, join_lines, lemma_boundary_at_prefix, lemma_boundary_range,
    lemma_join_push, lemma_newline_split_len, nl, strip_cr,
    lemma_bytes_concat, lemma_newline_split_free, lemma_split_line,
    lemma_split_join, lines_of, newline_split, no_newline,
};
use crate::word_boundaries::forward_word_pattern;

verus! {

broadcast use vstd::utf8::group_utf8_lib;

/// Typing a character and then pressing backspace gives the text back, with the
/// cursor at the position where the character was typed.
pub proof fn law_insert_then_delete(s: BufferState, c: char)
    requires
        valid_text(s.lines),
        s.selection is None,
        can_edit_at_cursor(s),
        clamp_col(s, s.cursor) < usize::MAX,
    ensures
        can_delete(insert_character_result(s, c)),
        delete_result(insert_character_result(s, c)) == (BufferState {
            cursor: edit_pos(s, s.cursor),
            ..s
        }),
{
    let (row, col) = edit_pos(s, s.cursor);
    let line = s.lines[row as int];
    let t = insert_character_result(s, c);
    let pre = line.subrange(0, col as int);
    let post = line.subrange(col as int, line.len() as int);
    assert(valid_utf8(line));
    lemma_split_line(line, col as int);
    let x = decode_utf8(pre);
    let y = decode_utf8(post);
    let new_line = pre + bytes(seq![c]) + post;
    lemma_bytes_concat(x, seq![c]);
    lemma_bytes_concat(x + seq![c], y);
    assert(new_line =~= bytes(x + seq![c] + y));
    assert(x + seq![c] + y =~= x + (seq![c] + y));
    lemma_boundary_at_prefix(x, seq![c] + y);
    encode_utf8_first_scalar(seq![c] + y);
    lemma_bytes_concat(seq![c], y);
    assert((seq![c] + y)[0] == c);
    assert(bytes(seq![c]) =~= encode_scalar(c as u32) + bytes(Seq::<char>::empty())) by {
        assert(seq![c].drop_first() =~= Seq::<char>::empty());
    }
    let w = bytes(seq![c]).len() as int;
    assert(w > 0);
    assert(t.lines[row as int] == new_line);
    assert(t.cursor == (row, (col + 1) as usize));
    assert(clamp_col(t, t.cursor) == col + 1);
    assert(new_line.subrange(col as int, new_line.len() as int) =~= bytes(seq![c] + y));
    assert(char_width_at(new_line, col as int) == w);
    assert(new_line.subrange(0, col as int) =~= pre);
    assert(new_line.subrange(col + w, new_line.len() as int) =~= post);
    assert(pre + post =~= line);
    let d = delete_result(t);
    assert(d.lines =~= s.lines);
}

/// Pressing return and then backspace gives the text back, with the cursor at
/// the position where return was pressed.
pub proof fn law_newline_then_delete(s: BufferState)
    requires
        valid_text(s.lines),
        s.lines.len() <= usize::MAX,
        s.selection is None,
        can_edit_at_cursor(s),
    ensures
        can_delete(insert_newline_result(s)),
        delete_result(insert_newline_result(s)) == (BufferState {
            cursor: edit_pos(s, s.cursor),
            ..s
        }),
{
    let (row, col) = edit_pos(s, s.cursor);
    let line = s.lines[row as int];
    let t = insert_newline_result(s);
    assert(valid_utf8(line));
    lemma_boundary_range(line, col as int);
    assert(t.cursor == ((row + 1) as usize, 0usize));
    assert(t.selection is None);
    let d = delete_result(t);
    assert(d.lines == t.lines.update(row as int, t.lines[row as int] + t.lines[row + 1]).remove(row + 1));
    assert(t.lines[row as int] + t.lines[row + 1] =~= line);
    let u = t.lines.update(row as int, line);
    assert(u =~= s.lines.insert(row + 1, line.subrange(col as int, line.len() as int)));
    assert(u.remove(row + 1) =~= s.lines);
    assert(d.lines =~= s.lines);
}

/// Pasting text without a newline puts its bytes into the line at the edit
/// column and the cursor after them.
pub proof fn law_paste_single_line(s: BufferState, text: Seq<u8>)
    requires
        s.selection is None,
        can_edit_at_cursor(s),
        no_newline(text),
    ensures
        ({
            let (row, col) = edit_pos(s, s.cursor);
            let line = s.lines[row as int];
            insert_string_result(s, text) == BufferState {
                lines: s.lines.update(
                    row as int,
                    line.subrange(0, col as int) + text + line.subrange(col as int, line.len() as int),
                ),
                cursor: (row, (col + text.len()) as usize),
                selection: None,
            }
        }),
{
    let (row, col) = edit_pos(s, s.cursor);
    let line = s.lines[row as int];
    lemma_newline_split_free(text);
    let r = insert_string_result(s, text);
    let expected = s.lines.update(
        row as int,
        line.subrange(0, col as int) + text + line.subrange(col as int, line.len() as int),
    );
    assert(pasted_lines(line, col as int, text) =~= seq![
        line.subrange(0, col as int) + text + line.subrange(col as int, line.len() as int),
    ]);
    assert(r.lines =~= expected);
}

/// The lines of saved text read back: splitting the joined lines gives them
/// again, except that a final empty line is not read as a line. Lines holding
/// no newline and not ending in a carriage return survive the round trip.
pub proof fn law_save_load(ls: Seq<Seq<u8>>)
    requires
        ls.len() >= 1,
        forall|i: int| 0 <= i < ls.len() ==> no_newline(#[trigger] ls[i]),
        forall|i: int| 0 <= i < ls.len() - 1 ==> !(ls[i].len() > 0 && #[trigger] ls[i].last() == cr()),
    ensures
        lines_of(join_lines(ls)) == if ls.last().len() == 0 {
            ls.drop_last()
        } else {
            ls
        },
{
    lemma_split_join(ls);
    let r = lines_of(join_lines(ls));
    let expected = if ls.last().len() == 0 {
        ls.drop_last()
    } else {
        ls
    };
    assert(r.len() == expected.len());
    assert forall|i: int| 0 <= i < r.len() implies r[i] == expected[i] by {
        if i < ls.len() - 1 {
            assert(!(ls[i].len() > 0 && ls[i].last() == cr()));
        }
    }
    assert(r =~= expected);
}

proof fn lemma_split_avoids_byte(b: Seq<u8>, x: u8)
    requires
        forall|k: int| 0 <= k < b.len() ==> b[k] != x,
    ensures
        forall|i: int, j: int|
            0 <= i < newline_split(b).len() && 0 <= j < newline_split(b)[i].len() ==> #[trigger] newline_split(b)[i][j] != x,
    decreases b.len(),
{
    if b.len() > 0 {
        let front = b.drop_last();
        lemma_split_avoids_byte(front, x);
        lemma_newline_split_len(front);
    }
}

proof fn lemma_piece_in_text(b: Seq<u8>, i: int)
    requires
        forall|k: int| 0 <= k < b.len() ==> b[k] != cr(),
        0 <= i < newline_split(b).len(),
    ensures
        strip_cr(newline_split(b)[i]) == newline_split(b)[i],
{
    lemma_split_avoids_byte(b, cr());
    let p = newline_split(b)[i];
    if p.len() > 0 {
        assert(p[p.len() - 1] != cr());
    }
}

proof fn lemma_split_last_nonempty(b: Seq<u8>)
    requires
        newline_split(b).last().len() > 0,
    ensures
        b.len() > 0 && b.last() != nl(),
{
    if b.len() == 0 {
        assert(newline_split(b) == seq![Seq::<u8>::empty()]);
    } else if b.last() == nl() {
        let r = newline_split(b.drop_last());
        assert(newline_split(b) == r.push(Seq::<u8>::empty()));
    }
}

proof fn lemma_join_split(b: Seq<u8>)
    ensures
        join_lines(newline_split(b)) == b,
    decreases b.len(),
{
    if b.len() > 0 {
        let front = b.drop_last();
        lemma_join_split(front);
        lemma_newline_split_len(front);
        let r = newline_split(front);
        if b.last() == nl() {
            lemma_join_push(r, seq![]);
            assert(front + seq![nl()] + Seq::<u8>::empty() =~= b);
        } else {
            let u = r.update(r.len() - 1, r.last().push(b.last()));
            if r.len() == 1 {
                assert(u =~= seq![r[0].push(b.last())]);
                assert(join_lines(u) == u[0]);
                assert(join_lines(r) == r[0]);
                assert(r[0].push(b.last()) =~= b);
            } else {
                assert(u.drop_last() =~= r.drop_last());
                assert(join_lines(u) =~= join_lines(r).push(b.last()));
                assert(front.push(b.last()) =~= b);
            }
        }
    } else {
        assert(join_lines(seq![Seq::<u8>::empty()]) == Seq::<u8>::empty());
    }
}

/// Saving the lines of a loaded text gives the text back, but for a final
/// newline, which is not kept, when the text holds no carriage return.
pub proof fn law_load_save(b: Seq<u8>)
    requires
        forall|i: int| 0 <= i < b.len() ==> b[i] != cr(),
    ensures
        join_lines(lines_of(b)) == if b.len() > 0 && b.last() == nl() {
            b.drop_last()
        } else {
            b
        },
{
    lemma_join_split(b);
    lemma_newline_split_len(b);
    let p = newline_split(b);
    let l = lines_of(b);
    assert forall|i: int| 0 <= i < p.len() - 1 implies strip_cr(#[trigger] p[i]) == p[i] by {
        lemma_piece_in_text(b, i);
    }
    if p.last().len() == 0 {
        assert(l =~= p.drop_last());
        if p.len() == 1 {
            assert(b.len() == 0);
        } else {
            assert(p.drop_last().push(p.last()) =~= p);
            lemma_join_push(p.drop_last(), p.last());
            assert(b =~= join_lines(l) + seq![nl()]);
            assert(b.drop_last() =~= join_lines(l));
        }
    } else {
        assert(l =~= p);
        lemma_split_last_nonempty(b);
    }
}

/// The two ends of a range come in reading order, and are the range's ends.
pub proof fn law_ordered_ends(a: (usize, usize), b: (usize, usize))
    ensures
        !pos_after(ordered(a, b).0, ordered(a, b).1),
        (ordered(a, b) == (a, b)) || (ordered(a, b) == (b, a)),
{
}

proof fn lemma_first_stop_after(stops: Seq<usize>, col: usize)
    ensures
        first_stop_after(stops, col) matches Some(m) ==> m > col,
    decreases stops.len(),
{
    if stops.len() > 0 && stops[0] <= col {
        lemma_first_stop_after(stops.drop_first(), col);
    }
}

/// A forward word motion never moves the cursor back: it ends on a later row,
/// or on the same row no earlier than the edit column it started from.
pub proof fn law_forward_word_moves_forward(s: BufferState, highlight: bool)
    requires
        s.cursor.0 < s.lines.len(),
        s.lines.len() <= usize::MAX,
    ensures
        ({
            let from = edit_pos(s, s.cursor);
            let to = forward_word_result(s, highlight).cursor;
            to.0 > from.0 || (to.0 == from.0 && to.1 >= from.1)
        }),
{
    let (row, col) = edit_pos(s, s.cursor);
    lemma_first_stop_after(line_stops(forward_word_pattern(), s.lines[row as int]), col);
}

/// Cursor motions change neither the text nor, without `highlight`, keep a selection.
pub proof fn law_motion_keeps_text(s: BufferState, to: (usize, usize), highlight: bool)
    ensures
        moved_to(s, to, highlight).lines == s.lines,
        moved_to(s, to, highlight).cursor == to,
        !highlight ==> moved_to(s, to, highlight).selection is None,
{
}

/// Moving right and then left, without selecting, brings the cursor back to the
/// position where edits happened before, unless that was the end of the text;
/// the text stays and no selection is left.
pub proof fn law_right_then_left(s: BufferState)
    requires
        s.cursor.0 < s.lines.len(),
        s.lines.len() <= usize::MAX,
        forall|i: int| 0 <= i < s.lines.len() ==> #[trigger] s.lines[i].len() <= usize::MAX,
        edit_pos(s, s.cursor).0 + 1 < s.lines.len() || edit_pos(s, s.cursor).1 < s.lines[s.cursor.0 as int].len(),
    ensures
        ({
            let t = moved_to(s, move_right_target(s), false);
            let u = moved_to(t, move_left_target(t), false);
            &&& u.cursor == edit_pos(s, s.cursor)
            &&& u.selection is None
            &&& u.lines == s.lines
        }),
{
    assert(s.lines[s.cursor.0 as int].len() <= usize::MAX);
}

/// A backspace without a selection, on an existing row and with the cursor past
/// the row's start, removes exactly the character that ends at the edit column
/// (the cursor's column, at most the line's length), also when the cursor lies
/// past the line's end; the cursor goes to where that character began, and the
/// other rows stay.
pub proof fn law_backspace_removes_the_character_before(s: BufferState)
    requires
        valid_text(s.lines),
        s.selection is None,
        s.cursor.0 < s.lines.len(),
        s.cursor.1 > 0,
        can_delete(s),
    ensures
        ({
            let row = s.cursor.0 as int;
            let line = s.lines[row];
            let col = if s.cursor.1 <= line.len() { s.cursor.1 as int } else { line.len() as int };
            let k = col - 1;
            let r = delete_result(s);
            &&& 0 <= k < line.len()
            &&& r.lines.len() == s.lines.len()
            &&& forall|i: int| 0 <= i < s.lines.len() && i != row ==> r.lines[i] == s.lines[i]
            &&& r.lines[row] == line.subrange(0, k) + line.subrange(k + char_width_at(line, k), line.len() as int)
            &&& r.cursor == (s.cursor.0, k as usize)
            &&& r.selection is None
        }),
{
}

/// A backspace without a selection at the start of a row below the first joins
/// that row to the end of the one above: there is one row less, the row above
/// holds both, the rows around stay, and the cursor goes to the join.
pub proof fn law_backspace_at_line_start_joins_lines(s: BufferState)
    requires
        s.selection is None,
        0 < s.cursor.0 < s.lines.len(),
        s.cursor.1 == 0,
        s.lines[s.cursor.0 - 1].len() <= usize::MAX,
    ensures
        ({
            let row = s.cursor.0 as int;
            let r = delete_result(s);
            &&& r.lines.len() == s.lines.len() - 1
            &&& r.lines[row - 1] == s.lines[row - 1] + s.lines[row]
            &&& forall|i: int| 0 <= i < row - 1 ==> r.lines[i] == s.lines[i]
            &&& forall|i: int| row <= i < r.lines.len() ==> r.lines[i] == s.lines[i + 1]
            &&& r.cursor == ((row - 1) as usize, s.lines[row - 1].len() as usize)
            &&& r.selection is None
        }),
{
}

/// A backspace at the very start of the text, without a selection, changes nothing.
pub proof fn law_backspace_at_text_start_does_nothing(s: BufferState)
    requires
        s.selection is None,
        s.cursor == (0usize, 0usize),
    ensures
        delete_result(s) == s,
{
}

} // verus!
