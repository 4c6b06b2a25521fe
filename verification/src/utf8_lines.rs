//! Byte-level view of text lines: UTF-8 facts, splitting text at newlines,
//! joining lines back together, and the few `String` edits the buffer makes.

use vstd::prelude::*;
use vstd::utf8::*;
use vstd::string::*;

verus! {

broadcast use vstd::utf8::group_utf8_lib;

/// The newline byte.
pub open spec fn nl() -> u8 {
    10u8
}

/// The carriage-return byte.
pub open spec fn cr() -> u8 {
    13u8
}

/// The UTF-8 bytes of a string value.
pub open spec fn bytes(s: Seq<char>) -> Seq<u8> {
    encode_utf8(s)
}

/// `true` when no byte of `b` is a newline.
pub open spec fn no_newline(b: Seq<u8>) -> bool {
    forall|i: int| 0 <= i < b.len() ==> b[i] != nl()
}

/// The lines joined with one newline byte between neighbours.
pub open spec fn join_lines(ls: Seq<Seq<u8>>) -> Seq<u8>
    decreases ls.len(),
{
    if ls.len() == 0 {
        seq![]
    } else if ls.len() == 1 {
        ls[0]
    } else {
        join_lines(ls.drop_last()) + seq![nl()] + ls.last()
    }
}

/// The pieces of `b` between its newline bytes, as `str::split('\n')` yields them:
/// the only sequence of newline-free pieces whose join is `b`.
pub open spec fn is_newline_split(b: Seq<u8>, pieces: Seq<Seq<u8>>) -> bool {
    &&& pieces.len() >= 1
    &&& join_lines(pieces) == b
    &&& forall|i: int| 0 <= i < pieces.len() ==> no_newline(#[trigger] pieces[i])
}

/// The pieces of `b` between its newline bytes, as `str::split('\n')` yields them.
pub open spec fn newline_split(b: Seq<u8>) -> Seq<Seq<u8>>
    decreases b.len(),
{
    if b.len() == 0 {
        seq![seq![]]
    } else {
        let r = newline_split(b.drop_last());
        if b.last() == nl() {
            r.push(seq![])
        } else {
            r.update(r.len() - 1, r.last().push(b.last()))
        }
    }
}

/// The lines of a text, as `str::lines` yields them.
pub open spec fn lines_of(b: Seq<u8>) -> Seq<Seq<u8>> {
    lines_of_pieces(newline_split(b))
}

/// `p` without one trailing carriage return.
pub open spec fn strip_cr(p: Seq<u8>) -> Seq<u8> {
    if p.len() > 0 && p.last() == cr() {
        p.drop_last()
    } else {
        p
    }
}

/// The lines that `str::lines` yields for a text split into `pieces` at its newlines:
/// a final empty piece (after a final newline) is not a line, and a line ended by a
/// newline loses one carriage return before it.
pub open spec fn lines_of_pieces(pieces: Seq<Seq<u8>>) -> Seq<Seq<u8>> {
    let n = if pieces.last().len() == 0 { pieces.len() - 1 } else { pieces.len() as int };
    Seq::new(
        n as nat,
        |i: int|
            if i < pieces.len() - 1 {
                strip_cr(pieces[i])
            } else {
                pieces[i]
            },
    )
}

/// The UTF-8 bytes of each string.
pub open spec fn strings_bytes(v: Seq<String>) -> Seq<Seq<u8>> {
    v.map_values(|s: String| bytes(s@))
}

pub proof fn lemma_bytes_concat(a: Seq<char>, b: Seq<char>)
    ensures
        bytes(a + b) == bytes(a) + bytes(b),
    decreases a.len(),
{
    if a.len() == 0 {
        assert(a + b =~= b);
        assert(bytes(a) =~= Seq::<u8>::empty());
        assert(bytes(a) + bytes(b) =~= bytes(b));
    } else {
        lemma_bytes_concat(a.drop_first(), b);
        assert((a + b).drop_first() =~= a.drop_first() + b);
        assert((a + b)[0] == a[0]);
        assert(bytes(a + b) =~= encode_scalar(a[0] as u32) + bytes(a.drop_first() + b));
        assert(bytes(a) + bytes(b) =~= encode_scalar(a[0] as u32) + (bytes(a.drop_first())
            + bytes(b)));
    }
}

/// An ASCII character is encoded as the one byte of its code.
pub proof fn lemma_ascii_char_bytes(c: char)
    requires
        (c as u32) < 0x80,
    ensures
        bytes(seq![c]) == seq![(c as u32) as u8],
{
    let v = c as u32;
    assert(leading_byte_width_1(v) == v as u8) by (bit_vector)
        requires
            v < 0x80,
    ;
    assert(seq![c].drop_first() =~= Seq::<char>::empty());
    assert(seq![c][0] == c);
    assert(bytes(seq![c]) =~= encode_scalar(v) + bytes(Seq::<char>::empty()));
}

/// Splitting at a newline byte cuts a text on character boundaries: both before
/// the newline and after it.
pub proof fn lemma_newline_boundaries(b: Seq<u8>, i: int)
    requires
        valid_utf8(b),
        0 <= i < b.len(),
        b[i] == nl(),
    ensures
        is_char_boundary(b, i),
        is_char_boundary(b, i + 1),
{
    is_char_boundary_iff_not_is_continuation_byte(b, i);
    assert(is_char_boundary(b, i));
    valid_utf8_split(b, i);
    let suffix = b.subrange(i, b.len() as int);
    assert(valid_utf8(suffix));
    assert(suffix[0] == nl());
    assert(length_of_first_scalar(suffix) == 1);
    assert(pop_first_scalar(suffix) =~= b.subrange(i + 1, b.len() as int));
    if i + 1 == b.len() {
        is_char_boundary_start_end_of_seq(b);
    } else {
        let rest = b.subrange(i + 1, b.len() as int);
        assert(valid_utf8(rest));
        assert(valid_first_scalar(rest));
        assert(rest[0] == b[i + 1]);
        assert(!is_continuation_byte(b[i + 1]));
        is_char_boundary_iff_not_is_continuation_byte(b, i + 1);
    }
}

/// Any ASCII byte of a valid text starts a character.
pub proof fn lemma_ascii_boundary(b: Seq<u8>, i: int)
    requires
        valid_utf8(b),
        0 <= i < b.len(),
        b[i] < 0x80,
    ensures
        is_char_boundary(b, i),
{
    is_char_boundary_iff_not_is_continuation_byte(b, i);
}

pub proof fn lemma_join_push(ls: Seq<Seq<u8>>, x: Seq<u8>)
    requires
        ls.len() >= 1,
    ensures
        join_lines(ls.push(x)) == join_lines(ls) + seq![nl()] + x,
{
    assert(ls.push(x).drop_last() =~= ls);
}

/// A character sequence's encoding has a character boundary where the encoding
/// of any prefix ends.
pub proof fn lemma_boundary_at_prefix(a: Seq<char>, b: Seq<char>)
    ensures
        is_char_boundary(bytes(a + b), bytes(a).len() as int),
    decreases a.len(),
{
    if a.len() == 0 {
        assert(a + b =~= b);
    } else {
        let ab = a + b;
        lemma_boundary_at_prefix(a.drop_first(), b);
        assert(ab.drop_first() =~= a.drop_first() + b);
        encode_utf8_first_scalar(ab);
        let w = encode_scalar(ab[0] as u32).len() as int;
        assert(bytes(ab) =~= encode_scalar(ab[0] as u32) + bytes(ab.drop_first()));
        assert(pop_first_scalar(bytes(ab)) =~= bytes(ab.drop_first()));
        assert(bytes(a) =~= encode_scalar(a[0] as u32) + bytes(a.drop_first()));
        assert(w > 0);
        reveal_with_fuel(is_char_boundary, 2);
    }
}

/// A valid line split at a boundary is the encoding of its two halves' characters.
pub proof fn lemma_split_line(line: Seq<u8>, col: int)
    requires
        valid_utf8(line),
        is_char_boundary(line, col),
    ensures
        line.subrange(0, col) == bytes(decode_utf8(line.subrange(0, col))),
        line.subrange(col, line.len() as int) == bytes(
            decode_utf8(line.subrange(col, line.len() as int)),
        ),
        0 <= col <= line.len(),
{
    valid_utf8_split(line, col);
    decode_utf8_encode_utf8(line.subrange(0, col));
    decode_utf8_encode_utf8(line.subrange(col, line.len() as int));
    if col != 0 {
        reveal_with_fuel(is_char_boundary, 1);
    }
    lemma_boundary_range(line, col);
}

pub proof fn lemma_boundary_range(line: Seq<u8>, col: int)
    requires
        valid_utf8(line),
        is_char_boundary(line, col),
    ensures
        0 <= col <= line.len(),
    decreases line.len(),
{
    if col != 0 {
        if 0 < col <= line.len() {
        } else {
            reveal_with_fuel(is_char_boundary, 1);
        }
    }
}

/// Inserts `c` into `s` at byte `idx`, as `String::insert` does.
#[verifier::external_body]
pub(crate) fn string_insert(s: &mut String, idx: usize, c: char)
    requires
        is_char_boundary(bytes(old(s)@), idx as int),
    ensures
        bytes(final(s)@) == bytes(old(s)@).subrange(0, idx as int) + bytes(seq![c]) + bytes(
            old(s)@,
        ).subrange(idx as int, bytes(old(s)@).len() as int),
{
    s.insert(idx, c)
}

/// The byte width of the character that starts at byte `i` of `b`.
pub open spec fn char_width_at(b: Seq<u8>, i: int) -> int {
    length_of_first_scalar(b.subrange(i, b.len() as int))
}

/// Removes the character that starts at byte `idx` of `s`, as `String::remove` does,
/// and returns it.
#[verifier::external_body]
pub(crate) fn string_remove(s: &mut String, idx: usize) -> (c: char)
    requires
        idx < bytes(old(s)@).len(),
        is_char_boundary(bytes(old(s)@), idx as int),
    ensures
        idx + char_width_at(bytes(old(s)@), idx as int) <= bytes(old(s)@).len(),
        bytes(seq![c]) == bytes(old(s)@).subrange(
            idx as int,
            idx + char_width_at(bytes(old(s)@), idx as int),
        ),
        bytes(final(s)@) == bytes(old(s)@).subrange(0, idx as int) + bytes(old(s)@).subrange(
            idx + char_width_at(bytes(old(s)@), idx as int),
            bytes(old(s)@).len() as int,
        ),
{
    s.remove(idx)
}

/// The byte length of a string.
pub fn byte_len(s: &String) -> (n: usize)
    ensures
        n == bytes(s@).len(),
{
    s.as_str().as_bytes().len()
}

/// A copy of a string slice.
pub fn to_owned_string(s: &str) -> (r: String)
    ensures
        r@ == s@,
{
    s.to_owned()
}

/// The text split at its newline bytes, as `str::split('\n')` yields it.
pub fn split_newlines(s: &str) -> (r: Vec<String>)
    ensures
        is_newline_split(bytes(s@), strings_bytes(r@)),
        strings_bytes(r@) == newline_split(bytes(s@)),
{
    let mut out: Vec<String> = Vec::new();
    let mut rest: &str = s;
    loop
        invariant
            join_lines(strings_bytes(out@) + seq![bytes(rest@)]) == bytes(s@),
            forall|i: int| 0 <= i < out@.len() ==> no_newline(#[trigger] bytes(out@[i]@)),
        decreases bytes(rest@).len(),
    {
        let rb = rest.as_bytes();
        let n = rb.len();
        let mut k: usize = 0;
        while k < n && rb[k] != 10u8
            invariant
                rb@ == bytes(rest@),
                n == rb@.len(),
                k <= n,
                forall|j: int| 0 <= j < k ==> rb@[j] != nl(),
            decreases n - k,
        {
            k = k + 1;
        }
        let ghost before = strings_bytes(out@);
        if k == n {
            out.push(to_owned_string(rest));
            proof {
                assert(strings_bytes(out@) =~= before + seq![bytes(rest@)]);
                assert forall|i: int| 0 <= i < out@.len() implies no_newline(
                    #[trigger] bytes(out@[i]@),
                ) by {
                    if i == out@.len() - 1 {
                        assert(out@[i]@ == rest@);
                    }
                }
            }
            proof {
                lemma_split_join(strings_bytes(out@));
            }
            return out;
        }
        proof {
            lemma_newline_boundaries(rb@, k as int);
        }
        let (piece, tail) = rest.split_at(k);
        proof {
            let tb = bytes(tail@);
            assert(tb =~= rb@.subrange(k as int, n as int));
            assert(valid_utf8(tb));
            assert(tb[0] == nl());
            assert(length_of_first_scalar(tb) == 1);
            reveal_with_fuel(is_char_boundary, 2);
            assert(is_char_boundary(tb, 1));
        }
        let (_nl, next) = tail.split_at(1);
        let ghost old_rest = bytes(rest@);
        out.push(to_owned_string(piece));
        rest = next;
        proof {
            let pb = bytes(piece@);
            let nb = bytes(next@);
            assert(pb =~= old_rest.subrange(0, k as int));
            assert(nb =~= old_rest.subrange(k + 1, n as int));
            assert(old_rest =~= pb + seq![nl()] + nb);
            assert(strings_bytes(out@) =~= before.push(pb));
            assert forall|i: int| 0 <= i < out@.len() implies no_newline(
                #[trigger] bytes(out@[i]@),
            ) by {
                if i == out@.len() - 1 {
                    assert(out@[i]@ == piece@);
                }
            }
            lemma_join_after_split(before, pb, nb);
        }
    }
}


/// `p` without one trailing carriage return.
fn strip_carriage_return(p: &String) -> (r: String)
    ensures
        bytes(r@) == strip_cr(bytes(p@)),
{
    let pb = p.as_str().as_bytes();
    let n = pb.len();
    if n > 0 && pb[n - 1] == 13u8 {
        proof {
            lemma_ascii_boundary(pb@, n - 1);
        }
        let (front, _cr) = p.as_str().split_at(n - 1);
        proof {
            assert(bytes(front@) =~= bytes(p@).drop_last());
        }
        to_owned_string(front)
    } else {
        p.clone()
    }
}

/// The lines of a text, as `str::lines` yields them.
pub fn text_lines(s: &str) -> (r: Vec<String>)
    ensures
        strings_bytes(r@) == lines_of(bytes(s@)),
{
    let pieces = split_newlines(s);
    let ghost pb = strings_bytes(pieces@);
    let count = pieces.len();
    let last_len = byte_len(&pieces[count - 1]);
    let n = if last_len == 0 {
        count - 1
    } else {
        count
    };
    let mut out: Vec<String> = Vec::new();
    let mut i: usize = 0;
    while i < n
        invariant
            pb == strings_bytes(pieces@),
            count == pieces@.len(),
            count >= 1,
            n == (if pb.last().len() == 0 { count - 1 } else { count as int }),
            i <= n,
            out@.len() == i,
            forall|j: int| 0 <= j < i ==> #[trigger] bytes(out@[j]@) == lines_of_pieces(pb)[j],
        decreases n - i,
    {
        let line = if i + 1 < count {
            strip_carriage_return(&pieces[i])
        } else {
            pieces[i].clone()
        };
        out.push(line);
        i = i + 1;
    }
    proof {
        assert(strings_bytes(out@) =~= lines_of_pieces(pb));
    }
    out
}

/// The lines joined with a newline between neighbours, as `[String]::join("\n")` does.
pub fn join_with_newlines(lines: &Vec<String>) -> (r: String)
    ensures
        bytes(r@) == join_lines(strings_bytes(lines@)),
{
    let mut out = String::new();
    let mut i: usize = 0;
    while i < lines.len()
        invariant
            i <= lines@.len(),
            bytes(out@) == join_lines(strings_bytes(lines@.subrange(0, i as int))),
        decreases lines@.len() - i,
    {
        let ghost before = out@;
        if i > 0 {
            out.append("\n");
            proof {
                reveal_strlit("\n");
                lemma_bytes_concat(before, "\n"@);
                assert("\n"@ =~= seq!['\n']);
                lemma_ascii_char_bytes('\n');
            }
        }
        let ghost mid = out@;
        out.append(lines[i].as_str());
        proof {
            lemma_bytes_concat(mid, lines@[i as int]@);
            let sub = strings_bytes(lines@.subrange(0, i + 1));
            assert(sub.drop_last() =~= strings_bytes(lines@.subrange(0, i as int)));
            assert(sub.last() == bytes(lines@[i as int]@));
            if i == 0 {
                assert(before =~= Seq::<char>::empty());
                assert(bytes(before).len() == 0);
                assert(bytes(out@) =~= sub.last());
            }
        }
        i = i + 1;
    }
    proof {
        assert(lines@.subrange(0, lines@.len() as int) =~= lines@);
    }
    out
}

pub proof fn lemma_newline_split_len(b: Seq<u8>)
    ensures
        newline_split(b).len() >= 1,
    decreases b.len(),
{
    if b.len() > 0 {
        lemma_newline_split_len(b.drop_last());
    }
}

pub proof fn lemma_newline_split_free(x: Seq<u8>)
    requires
        no_newline(x),
    ensures
        newline_split(x) == seq![x],
    decreases x.len(),
{
    if x.len() > 0 {
        lemma_newline_split_free(x.drop_last());
        assert(x.drop_last().push(x.last()) =~= x);
        assert(seq![x.drop_last()].update(0, x.drop_last().push(x.last())) =~= seq![x]);
    } else {
        assert(x =~= Seq::<u8>::empty());
    }
}

pub proof fn lemma_newline_split_append(a: Seq<u8>, l: Seq<u8>)
    requires
        no_newline(l),
    ensures
        newline_split(a + seq![nl()] + l) == newline_split(a).push(l),
    decreases l.len(),
{
    let x = a + seq![nl()] + l;
    if l.len() == 0 {
        assert(x.drop_last() =~= a);
        assert(l =~= Seq::<u8>::empty());
    } else {
        lemma_newline_split_append(a, l.drop_last());
        assert(x.drop_last() =~= a + seq![nl()] + l.drop_last());
        assert(x.last() == l.last());
        lemma_newline_split_len(a);
        let r = newline_split(a).push(l.drop_last());
        assert(r.update(r.len() - 1, r.last().push(l.last())) =~= newline_split(a).push(l)) by {
            assert(l.drop_last().push(l.last()) =~= l);
        }
    }
}

/// Splitting joined newline-free lines at their newlines gives the lines back.
pub proof fn lemma_split_join(ls: Seq<Seq<u8>>)
    requires
        ls.len() >= 1,
        forall|i: int| 0 <= i < ls.len() ==> no_newline(#[trigger] ls[i]),
    ensures
        newline_split(join_lines(ls)) == ls,
    decreases ls.len(),
{
    if ls.len() == 1 {
        lemma_newline_split_free(ls[0]);
        assert(seq![ls[0]] =~= ls);
    } else {
        let front = ls.drop_last();
        assert forall|i: int| 0 <= i < front.len() implies no_newline(#[trigger] front[i]) by {
            assert(front[i] == ls[i]);
        }
        lemma_split_join(front);
        assert(no_newline(ls[ls.len() - 1]));
        lemma_newline_split_append(join_lines(front), ls.last());
        assert(front.push(ls.last()) =~= ls);
    }
}

proof fn lemma_join_after_split(before: Seq<Seq<u8>>, p: Seq<u8>, n: Seq<u8>)
    ensures
        join_lines(before.push(p) + seq![n]) == join_lines(before + seq![p + seq![nl()] + n]),
{
    let a = before.push(p) + seq![n];
    let b = before + seq![p + seq![nl()] + n];
    assert(a.drop_last() =~= before.push(p));
    assert(b.drop_last() =~= before);
    if before.len() == 0 {
        assert(before.push(p) =~= seq![p]);
        assert(join_lines(a) == join_lines(before.push(p)) + seq![nl()] + n);
        assert(join_lines(a) =~= p + seq![nl()] + n);
        assert(join_lines(b) == p + seq![nl()] + n);
    } else {
        lemma_join_push(before, p);
        assert(join_lines(a) == join_lines(before.push(p)) + seq![nl()] + n);
        assert(join_lines(a) =~= join_lines(before) + seq![nl()] + p + seq![nl()] + n);
        assert(join_lines(b) =~= join_lines(before) + seq![nl()] + (p + seq![nl()] + n));
    }
}

} // verus!
