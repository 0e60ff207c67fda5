//! Laws of the decoder, proved from its model.

use crate::event::EventView;
use crate::model::{Block, ParserView, Yield};
use crate::parser::Error;
use crate::trusted::{absent, first_at, utf8_error};
use crate::wire::{
    after_first_line, field_name, field_value, first_line, has_colon, has_line, is_comment,
    lemma_line_found, lemma_line_shrinks, lemma_no_line_no_terminator, line_len, terminator_len,
    COLON, CR, LF,
};
use vstd::prelude::*;
use vstd::string::StringSliceAdditionalSpecFns;
use vstd::utf8::{decode_utf8, encode_utf8, valid_utf8};

verus! {

// Lines, and draining them.

/// Where a line without terminator bytes is followed by a terminator, the
/// line is the first line and what follows the terminator is the rest.
pub proof fn lemma_line_then_rest(line: Seq<u8>, terminator: Seq<u8>, rest: Seq<u8>)
    requires
        absent(line, CR, LF),
        terminator == seq![LF] || terminator == seq![CR, LF] || (terminator == seq![CR] && !(
        rest.len() > 0 && rest.first() == LF)),
    ensures
        has_line(line + terminator + rest),
        first_line(line + terminator + rest) == line,
        after_first_line(line + terminator + rest) == rest,
{
    let buf = line + terminator + rest;
    let i = line.len() as int;
    assert(buf[i] == terminator[0]);
    assert(first_at(buf, CR, LF, i)) by {
        assert forall|j: int| 0 <= j < i implies buf[j] != CR && buf[j] != LF by {
            assert(buf[j] == line[j]);
        }
    }
    lemma_line_found(buf, i);
    if terminator.len() == 2 {
        assert(buf[i + 1] == terminator[1]);
    } else if rest.len() > 0 {
        assert(buf[i + 1] == rest[0]);
    }
    assert(first_line(buf) =~= line);
    assert(after_first_line(buf) =~= rest);
}

/// Draining goes line by line: with no complete line it yields nothing and
/// changes nothing; else it is the first line's step, then the rest.
pub proof fn lemma_drain_by_line(p: ParserView)
    ensures
        !has_line(p.pending) ==> p.drain() == (p, Seq::<Yield>::empty()),
        has_line(p.pending) ==> p.drain() == (
            p.step().0.drain().0,
            match p.step().1 {
                Some(y) => seq![y] + p.step().0.drain().1,
                None => p.step().0.drain().1,
            },
        ),
{
}

/// Draining leaves no complete line behind.
pub proof fn lemma_drained(p: ParserView)
    ensures
        !has_line(p.drain().0.pending),
    decreases p.pending.len(),
{
    lemma_drain_by_line(p);
    if has_line(p.pending) {
        lemma_line_shrinks(p.pending);
        lemma_drained(p.step().0);
    }
}

// Chunk boundaries.

/// `before` ends in a carriage return and `after` starts with a line feed:
/// a cut between the two parts a CRLF pair.
pub open spec fn splits_crlf(before: Seq<u8>, after: Seq<u8>) -> bool {
    before.len() > 0 && before.last() == CR && after.len() > 0 && after.first() == LF
}

/// No cut parts a CRLF pair: neither the cut between `seen`, the input so
/// far, and the chunks, nor a cut between one chunk and the next.
pub open spec fn cuts_clean(seen: Seq<u8>, chunks: Seq<Seq<u8>>) -> bool
    decreases chunks.len(),
{
    chunks.len() == 0 || (!splits_crlf(seen, chunks.flatten()) && cuts_clean(
        seen + chunks.first(),
        chunks.drop_first(),
    ))
}

/// `tail` is what `whole` ends in.
pub open spec fn ends_in(whole: Seq<u8>, tail: Seq<u8>) -> bool {
    tail.len() <= whole.len() && tail == whole.subrange(
        whole.len() - tail.len(),
        whole.len() as int,
    )
}

/// The end of an end is an end.
pub proof fn lemma_ends_in_trans(a: Seq<u8>, b: Seq<u8>, c: Seq<u8>)
    requires
        ends_in(a, b),
        ends_in(b, c),
    ensures
        ends_in(a, c),
{
    assert(c =~= a.subrange(a.len() - c.len(), a.len() as int));
}

/// What a buffer ends in, it still ends in when both grow by the same bytes.
pub proof fn lemma_ends_in_grown(whole: Seq<u8>, tail: Seq<u8>, more: Seq<u8>)
    requires
        ends_in(whole, tail),
    ensures
        ends_in(whole + more, tail + more),
{
    let grown = whole + more;
    assert(tail + more =~= grown.subrange(grown.len() - (tail + more).len(), grown.len() as int));
}

/// Bytes appended behind a complete line do not change what the line is,
/// unless they start with the line feed of a carriage return that ends the
/// buffer.
pub proof fn lemma_step_feed(p: ParserView, chunk: Seq<u8>)
    requires
        has_line(p.pending),
        !splits_crlf(p.pending, chunk),
    ensures
        has_line(p.feed(chunk).pending),
        p.feed(chunk).step() == (p.step().0.feed(chunk), p.step().1),
        !splits_crlf(p.step().0.pending, chunk),
        ends_in(p.pending, p.step().0.pending),
{
    let buf = p.pending;
    let fed = buf + chunk;
    lemma_line_shrinks(buf);
    let i = line_len(buf);
    assert(first_at(fed, CR, LF, i));
    lemma_line_found(fed, i);
    assert(terminator_len(fed) == terminator_len(buf));
    assert(first_line(fed) =~= first_line(buf));
    assert(after_first_line(fed) =~= after_first_line(buf) + chunk);
}

/// Draining before more input arrives changes nothing: feed-then-drain
/// equals drain, feed, drain again, as long as the cut parts no CRLF pair.
pub proof fn lemma_drain_feed(p: ParserView, chunk: Seq<u8>)
    requires
        !splits_crlf(p.pending, chunk),
    ensures
        p.feed(chunk).drain() == (
            p.drain().0.feed(chunk).drain().0,
            p.drain().1 + p.drain().0.feed(chunk).drain().1,
        ),
        ends_in(p.pending, p.drain().0.pending),
    decreases p.pending.len(),
{
    lemma_drain_by_line(p);
    if has_line(p.pending) {
        lemma_step_feed(p, chunk);
        lemma_line_shrinks(p.pending);
        let q = p.step().0;
        lemma_drain_feed(q, chunk);
        lemma_ends_in_trans(p.pending, q.pending, q.drain().0.pending);
        lemma_drain_by_line(p.feed(chunk));
        let tail = q.drain().0.feed(chunk).drain().1;
        match p.step().1 {
            Some(y) => {
                assert(seq![y] + (q.drain().1 + tail) =~= (seq![y] + q.drain().1) + tail);
            },
            None => {},
        }
    } else {
        assert(Seq::<Yield>::empty() + p.feed(chunk).drain().1 =~= p.feed(chunk).drain().1);
        assert(p.pending.subrange(0, p.pending.len() as int) =~= p.pending);
    }
}

/// What holds of a buffer's cuts holds of the cuts of what it ends in.
pub proof fn lemma_cuts_clean_tail(seen: Seq<u8>, tail: Seq<u8>, chunks: Seq<Seq<u8>>)
    requires
        cuts_clean(seen, chunks),
        ends_in(seen, tail),
    ensures
        cuts_clean(tail, chunks),
    decreases chunks.len(),
{
    if chunks.len() > 0 {
        lemma_ends_in_grown(seen, tail, chunks.first());
        lemma_cuts_clean_tail(seen + chunks.first(), tail + chunks.first(), chunks.drop_first());
    }
}

/// Chunk boundaries do not matter. An adapter that is handed the input in
/// chunks, draining the parser before each, ends in the same state and
/// yields the same events and errors in the same order as one that is
/// handed the whole input at once, as long as no cut parts a carriage
/// return from a line feed that directly follows it.
pub proof fn lemma_chunks_as_one(p: ParserView, chunks: Seq<Seq<u8>>)
    requires
        cuts_clean(p.pending, chunks),
    ensures
        p.run(chunks) == p.feed(chunks.flatten()).drain(),
    decreases chunks.len(),
{
    if chunks.len() == 0 {
        assert(p.pending + chunks.flatten() =~= p.pending);
    } else {
        let first = chunks.first();
        let rest = chunks.drop_first();
        let all = chunks.flatten();
        let (drained, head) = p.drain();
        let fed = drained.feed(first);
        assert(all == first + rest.flatten());
        lemma_drain_feed(p, all);
        lemma_ends_in_grown(p.pending, drained.pending, first);
        lemma_cuts_clean_tail(p.pending + first, fed.pending, rest);
        lemma_chunks_as_one(fed, rest);
        assert(fed.feed(rest.flatten()) == drained.feed(all)) by {
            assert((drained.pending + first) + rest.flatten() =~= drained.pending + all);
        }
        assert(p.run(chunks) == (fed.run(rest).0, head + fed.run(rest).1));
    }
}

/// No carriage return in `input` is directly followed by a line feed.
pub open spec fn no_crlf(input: Seq<u8>) -> bool {
    forall|i: int|
        0 <= i && i + 1 < input.len() ==> !(#[trigger] input[i] == CR && input[i + 1] == LF)
}

/// `input` cut into chunks of one byte each.
pub open spec fn bytewise(input: Seq<u8>) -> Seq<Seq<u8>> {
    Seq::new(input.len(), |i: int| seq![input[i]])
}

/// A cut behind every byte parts no CRLF pair when there is none.
pub proof fn lemma_bytewise_cuts(seen: Seq<u8>, input: Seq<u8>)
    requires
        no_crlf(input),
        !splits_crlf(seen, input),
    ensures
        cuts_clean(seen, bytewise(input)),
        bytewise(input).flatten() == input,
    decreases input.len(),
{
    let chunks = bytewise(input);
    if input.len() == 0 {
        assert(chunks.flatten() =~= input);
    } else {
        let rest = input.drop_first();
        assert(chunks.drop_first() =~= bytewise(rest));
        assert(no_crlf(rest)) by {
            assert forall|i: int| 0 <= i && i + 1 < rest.len() implies !(#[trigger] rest[i] == CR
                && rest[i + 1] == LF) by {
                assert(input[i + 1] == rest[i]);
            }
        }
        assert(!splits_crlf(seen + chunks.first(), rest)) by {
            if rest.len() > 0 {
                assert(input[0] == (seen + chunks.first()).last());
                assert(input[1] == rest.first());
            }
        }
        lemma_bytewise_cuts(seen + chunks.first(), rest);
        assert(chunks.flatten() =~= input);
    }
}

/// Fed one byte at a time or as a single chunk, an input yields the same
/// events and errors in the same order and leaves the parser in the same
/// state, as long as no carriage return in it is directly followed by a
/// line feed.
pub proof fn lemma_bytewise_as_one(input: Seq<u8>)
    requires
        no_crlf(input),
    ensures
        ParserView::fresh().run(bytewise(input)) == ParserView::fresh().run(seq![input]),
{
    let p = ParserView::fresh();
    lemma_bytewise_cuts(p.pending, input);
    lemma_chunks_as_one(p, bytewise(input));
    assert(seq![input].flatten() =~= input) by {
        seq![input].lemma_flatten_one_element();
    }
    assert(cuts_clean(p.pending, seq![input])) by {
        assert(cuts_clean(p.pending + input, seq![input].drop_first()));
    }
    lemma_chunks_as_one(p, seq![input]);
}

// Terminators.

/// A line is decoded the same whichever terminator ends it: a line feed, a
/// carriage return and a line feed, or a carriage return alone, which is
/// one that no line feed directly follows.
pub proof fn lemma_terminators_alike(block: Block, line: Seq<u8>, rest: Seq<u8>)
    requires
        absent(line, CR, LF),
    ensures
        ({
            let lf = ParserView { pending: line + seq![LF] + rest, block };
            let crlf = ParserView { pending: line + seq![CR, LF] + rest, block };
            let cr = ParserView { pending: line + seq![CR] + rest, block };
            &&& crlf.step() == lf.step()
            &&& crlf.next() == lf.next()
            &&& crlf.drain() == lf.drain()
            &&& !(rest.len() > 0 && rest.first() == LF) ==> {
                &&& cr.step() == lf.step()
                &&& cr.next() == lf.next()
                &&& cr.drain() == lf.drain()
            }
        }),
{
    let lf = ParserView { pending: line + seq![LF] + rest, block };
    let crlf = ParserView { pending: line + seq![CR, LF] + rest, block };
    let cr = ParserView { pending: line + seq![CR] + rest, block };
    lemma_line_then_rest(line, seq![LF], rest);
    lemma_line_then_rest(line, seq![CR, LF], rest);
    lemma_drain_by_line(lf);
    lemma_drain_by_line(crlf);
    if !(rest.len() > 0 && rest.first() == LF) {
        lemma_line_then_rest(line, seq![CR], rest);
        lemma_drain_by_line(cr);
    }
}

/// `input` with a line feed in place of each carriage return.
pub open spec fn lone(input: Seq<u8>) -> Seq<u8> {
    Seq::new(
        input.len(),
        |i: int|
            if input[i] == CR {
                LF
            } else {
                input[i]
            },
    )
}

/// Fed one byte at a time, carriage returns and line feeds are alike: from
/// states that drain alike, an input and the same input with a line feed for
/// each carriage return lead to the same state and yield the same.
pub proof fn lemma_bytewise_lone(p: ParserView, q: ParserView, input: Seq<u8>)
    requires
        p.drain() == q.drain(),
    ensures
        p.run(bytewise(input)) == q.run(bytewise(lone(input))),
    decreases input.len(),
{
    let chunks = bytewise(input);
    let lone_chunks = bytewise(lone(input));
    if input.len() > 0 {
        let drained = p.drain().0;
        let rest = input.drop_first();
        assert(chunks.drop_first() =~= bytewise(rest));
        assert(lone_chunks.drop_first() =~= bytewise(lone(rest)));
        assert(drained.feed(chunks.first()).drain() == drained.feed(lone_chunks.first()).drain())
            by {
            if input[0] == CR {
                lemma_drained(p);
                lemma_no_line_no_terminator(drained.pending);
                let none = Seq::<u8>::empty();
                lemma_terminators_alike(drained.block, drained.pending, none);
                assert(drained.feed(chunks.first()).pending =~= drained.pending + seq![CR] + none);
                assert(drained.feed(lone_chunks.first()).pending =~= drained.pending + seq![LF]
                    + none);
            } else {
                assert(chunks.first() =~= lone_chunks.first());
            }
        }
        lemma_bytewise_lone(
            drained.feed(chunks.first()),
            drained.feed(lone_chunks.first()),
            rest,
        );
    }
}

/// Fed one byte at a time, every carriage return and every line feed ends a
/// line of its own: an input yields what it would yield as a single chunk
/// if each of its carriage returns were a line feed. So feeding bytewise and
/// feeding at once differ exactly where reading a CRLF pair as two
/// terminators in place of one makes a difference.
pub proof fn lemma_bytewise_every_terminator(input: Seq<u8>)
    ensures
        ParserView::fresh().run(bytewise(input)) == ParserView::fresh().run(seq![lone(input)]),
{
    let p = ParserView::fresh();
    lemma_bytewise_lone(p, p, input);
    assert(no_crlf(lone(input)));
    lemma_bytewise_as_one(lone(input));
}

// Progress.

/// Without new input there is no progress: once `next` has returned `None`,
/// it returns `None` again and changes nothing, until more is fed.
pub proof fn lemma_none_again(p: ParserView)
    requires
        p.next().1 is None,
    ensures
        p.next().0.next() == (p.next().0, None::<Yield>),
{
    p.lemma_next_consumes();
}

// Fields and blocks.

/// The field names, byte for byte.
pub proof fn lemma_field_names()
    ensures
        "event".spec_bytes() == seq![0x65u8, 0x76, 0x65, 0x6E, 0x74],
        "data".spec_bytes() == seq![0x64u8, 0x61, 0x74, 0x61],
        "id".spec_bytes() == seq![0x69u8, 0x64],
{
    reveal_strlit("event");
    reveal_strlit("data");
    reveal_strlit("id");
    vstd::utf8::is_ascii_chars_encode_utf8("event"@);
    vstd::utf8::is_ascii_chars_encode_utf8("data"@);
    vstd::utf8::is_ascii_chars_encode_utf8("id"@);
    assert("event".spec_bytes() =~= seq![0x65u8, 0x76, 0x65, 0x6E, 0x74]);
    assert("data".spec_bytes() =~= seq![0x64u8, 0x61, 0x74, 0x61]);
    assert("id".spec_bytes() =~= seq![0x69u8, 0x64]);
}

/// ASCII bytes are well-formed UTF-8 and decode byte for byte.
pub proof fn lemma_ascii_decodes(bytes: Seq<u8>)
    requires
        forall|i: int| 0 <= i < bytes.len() ==> bytes[i] < 0x80,
    ensures
        valid_utf8(bytes),
        decode_utf8(bytes) == Seq::new(bytes.len(), |i: int| bytes[i] as char),
{
    let chars = Seq::new(bytes.len(), |i: int| bytes[i] as char);
    vstd::utf8::is_ascii_chars_encode_utf8(chars);
    assert(encode_utf8(chars) =~= bytes);
    vstd::utf8::encode_utf8_valid_utf8(chars);
    vstd::utf8::encode_utf8_decode_utf8(chars);
}

/// A field whose value is ASCII is never an error: the value goes into the
/// block byte for byte.
pub proof fn lemma_ascii_value(block: Block, name: Seq<u8>, value: Seq<u8>)
    requires
        forall|i: int| 0 <= i < value.len() ==> value[i] < 0x80,
    ensures
        block.add_field(name, value) == Ok::<Block, Error>(
            block.set(name, Seq::new(value.len(), |i: int| value[i] as char)),
        ),
{
    lemma_ascii_decodes(value);
}

/// A field whose value is not UTF-8 is reported by the call of `next` that
/// reaches its line, whatever its name. The line is consumed and the block
/// is left as it was, so what follows is decoded as if the line had not been
/// there.
pub proof fn lemma_invalid_value_reported(p: ParserView)
    requires
        has_line(p.pending),
        !is_comment(first_line(p.pending)),
        !valid_utf8(field_value(first_line(p.pending))),
    ensures
        p.next() == (
            ParserView { pending: after_first_line(p.pending), block: p.block },
            Some(
                Err::<EventView, Error>(
                    Error::Utf8(utf8_error(field_value(first_line(p.pending)))),
                ),
            ),
        ),
{
    let line = first_line(p.pending);
    assert(line.len() > 0) by {
        if line.len() == 0 {
            assert(!has_colon(line));
            assert(valid_utf8(field_value(line)));
        }
    }
}

/// An `id` field sets the id to its value, the empty value too, unless the
/// value holds a NUL: then the block stays as it was.
pub proof fn lemma_id_field(block: Block, text: Seq<char>)
    ensures
        block.set("id".spec_bytes(), text) == if text.contains('\0') {
            block
        } else {
            (Block { last_event_id: Some(text), ..block })
        },
{
    lemma_field_names();
}

/// Only an `id` field changes the id: a block that no `id` line went into
/// has none.
pub proof fn lemma_id_kept(block: Block, line: Seq<u8>)
    ensures
        block.add_line(line) matches Ok(after) ==> after.last_event_id == block.last_event_id
            || field_name(line) == "id".spec_bytes(),
{
}

/// The first `data` field of a block starts the payload, and each further
/// one adds a line feed and its value: the values are joined by line feeds,
/// with none behind the last.
pub proof fn lemma_data_joined(block: Block, text: Seq<char>)
    ensures
        block.set("data".spec_bytes(), text).data == Some(
            match block.data {
                Some(data) => data + seq!['\n'] + text,
                None => text,
            },
        ),
        block.set("data".spec_bytes(), text).event_type == block.event_type,
        block.set("data".spec_bytes(), text).last_event_id == block.last_event_id,
{
    lemma_field_names();
}

/// A line that is empty sets no field.
pub proof fn lemma_empty_name_sets_nothing(block: Block)
    ensures
        block.add_line(Seq::empty()) == Ok::<Block, Error>(block),
{
    let none = Seq::<u8>::empty();
    assert(!has_colon(none));
    assert(valid_utf8(none));
    lemma_field_names();
}

/// A block that holds nothing but a comment is never dispatched: the
/// comment and the blank line behind it are consumed and yield nothing.
pub proof fn lemma_comment_only(comment: Seq<u8>)
    requires
        absent(comment, CR, LF),
    ensures
        ParserView::fresh().feed(seq![COLON] + comment + seq![LF] + seq![LF]).drain() == (
            ParserView::fresh(),
            Seq::<Yield>::empty(),
        ),
{
    let line = seq![COLON] + comment;
    let p = ParserView::fresh().feed(line + seq![LF] + seq![LF]);
    assert(p.pending =~= line + seq![LF] + seq![LF]);
    assert(absent(line, CR, LF)) by {
        assert forall|j: int| 0 <= j < line.len() implies line[j] != CR && line[j] != LF by {
            if j > 0 {
                assert(line[j] == comment[j - 1]);
            }
        }
    }
    lemma_line_then_rest(line, seq![LF], seq![LF]);
    lemma_drain_by_line(p);
    let q = p.step().0;
    assert(is_comment(line));
    assert(q == ParserView { pending: seq![LF], block: Block::empty() });
    let none = Seq::<u8>::empty();
    assert(q.pending =~= none + seq![LF] + none);
    lemma_line_then_rest(none, seq![LF], none);
    lemma_drain_by_line(q);
    assert(!is_comment(none));
    assert(!has_colon(none));
    lemma_empty_name_sets_nothing(Block::empty());
    lemma_drain_by_line(q.step().0);
    assert(!has_line(none));
}

} // verus!
