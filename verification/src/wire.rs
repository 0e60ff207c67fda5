//! The wire format: how a run of bytes splits into lines, and a line into a
//! field name and a field value.

use crate::trusted::{absent, first_at};
use vstd::prelude::*;

verus! {

/// Carriage return.
pub const CR: u8 = 0x0D;

/// Line feed.
pub const LF: u8 = 0x0A;

/// The byte that parts a field's name from its value.
pub const COLON: u8 = 0x3A;

/// The byte that is dropped once when it directly follows the colon.
pub const SPACE: u8 = 0x20;

/// Some line of `buf` is complete: a carriage return or a line feed occurs.
pub open spec fn has_line(buf: Seq<u8>) -> bool {
    exists|i: int| first_at(buf, CR, LF, i)
}

/// The length of the first line of `buf`: the position of its first
/// carriage return or line feed.
pub open spec fn line_len(buf: Seq<u8>) -> int
    recommends
        has_line(buf),
{
    choose|i: int| first_at(buf, CR, LF, i)
}

/// The length of the terminator that ends the first line of `buf`: two for
/// a carriage return directly followed by a line feed, else one.
pub open spec fn terminator_len(buf: Seq<u8>) -> int
    recommends
        has_line(buf),
{
    let i = line_len(buf);
    if buf[i] == CR && i + 1 < buf.len() && buf[i + 1] == LF {
        2
    } else {
        1
    }
}

/// The first line of `buf`, without its terminator.
pub open spec fn first_line(buf: Seq<u8>) -> Seq<u8>
    recommends
        has_line(buf),
{
    buf.subrange(0, line_len(buf))
}

/// What is left of `buf` once its first line and that line's terminator are
/// taken away.
pub open spec fn after_first_line(buf: Seq<u8>) -> Seq<u8>
    recommends
        has_line(buf),
{
    buf.subrange(line_len(buf) + terminator_len(buf), buf.len() as int)
}

/// The line holds a colon.
pub open spec fn has_colon(line: Seq<u8>) -> bool {
    exists|i: int| first_at(line, COLON, COLON, i)
}

/// The position of the first colon of `line`.
pub open spec fn colon_at(line: Seq<u8>) -> int
    recommends
        has_colon(line),
{
    choose|i: int| first_at(line, COLON, COLON, i)
}

/// The line starts with a colon: it is a comment and sets no field.
pub open spec fn is_comment(line: Seq<u8>) -> bool {
    line.len() > 0 && line[0] == COLON
}

/// The field name of a line: what stands before its first colon, or the
/// whole line when it has none.
pub open spec fn field_name(line: Seq<u8>) -> Seq<u8> {
    if has_colon(line) {
        line.subrange(0, colon_at(line))
    } else {
        line
    }
}

/// Where the value starts in a line that has a colon: behind the colon, and
/// behind one space if a space directly follows the colon.
pub open spec fn value_start(line: Seq<u8>) -> int
    recommends
        has_colon(line),
{
    let i = colon_at(line);
    if i + 1 < line.len() && line[i + 1] == SPACE {
        i + 2
    } else {
        i + 1
    }
}

/// The field value of a line: what stands behind its first colon, less one
/// leading space, or nothing when the line has no colon.
pub open spec fn field_value(line: Seq<u8>) -> Seq<u8> {
    if has_colon(line) {
        line.subrange(value_start(line), line.len() as int)
    } else {
        Seq::empty()
    }
}

/// At most one position is the first to hold `a` or `b`.
pub proof fn lemma_first_at_unique(s: Seq<u8>, a: u8, b: u8, i: int, j: int)
    requires
        first_at(s, a, b, i),
        first_at(s, a, b, j),
    ensures
        i == j,
{
}

/// A terminator first found at `i` makes `i` the length of the first line.
pub proof fn lemma_line_found(buf: Seq<u8>, i: int)
    requires
        first_at(buf, CR, LF, i),
    ensures
        has_line(buf),
        line_len(buf) == i,
{
    lemma_first_at_unique(buf, CR, LF, i, line_len(buf));
}

/// Without a terminator there is no complete line.
pub proof fn lemma_no_line(buf: Seq<u8>)
    requires
        absent(buf, CR, LF),
    ensures
        !has_line(buf),
{
}

/// A colon first found at `i` is the colon that splits the line.
pub proof fn lemma_colon_found(line: Seq<u8>, i: int)
    requires
        first_at(line, COLON, COLON, i),
    ensures
        has_colon(line),
        colon_at(line) == i,
{
    lemma_first_at_unique(line, COLON, COLON, i, colon_at(line));
}

/// Without a colon the line is all name.
pub proof fn lemma_no_colon(line: Seq<u8>)
    requires
        absent(line, COLON, COLON),
    ensures
        !has_colon(line),
{
}

/// Taking the first line away leaves less than there was.
pub proof fn lemma_line_shrinks(buf: Seq<u8>)
    requires
        has_line(buf),
    ensures
        0 <= line_len(buf) < buf.len(),
        line_len(buf) + terminator_len(buf) <= buf.len(),
        after_first_line(buf).len() < buf.len(),
        first_line(buf).len() == line_len(buf),
        absent(first_line(buf), CR, LF),
{
}

/// Where `a` or `b` occurs at all, it occurs somewhere first.
pub proof fn lemma_first_exists(s: Seq<u8>, a: u8, b: u8, k: int)
    requires
        0 <= k < s.len(),
        s[k] == a || s[k] == b,
    ensures
        exists|i: int| first_at(s, a, b, i),
    decreases k,
{
    if exists|j: int| 0 <= j < k && (s[j] == a || s[j] == b) {
        let j = choose|j: int| 0 <= j < k && (s[j] == a || s[j] == b);
        lemma_first_exists(s, a, b, j);
    } else {
        assert(first_at(s, a, b, k));
    }
}

/// A buffer without a complete line holds no terminator byte.
pub proof fn lemma_no_line_no_terminator(buf: Seq<u8>)
    requires
        !has_line(buf),
    ensures
        absent(buf, CR, LF),
{
    assert forall|j: int| 0 <= j < buf.len() implies buf[j] != CR && buf[j] != LF by {
        if buf[j] == CR || buf[j] == LF {
            lemma_first_exists(buf, CR, LF, j);
        }
    }
}

} // verus!
