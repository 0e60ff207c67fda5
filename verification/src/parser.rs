//! The incremental parser: a byte buffer, the block in progress, and the
//! calls that feed the one and decode into the other.

use crate::event::{text_of, Event};
use crate::model::{Block, ParserView, Yield};
use crate::trusted::contents;
use crate::wire::{
    after_first_line, first_line, has_line, lemma_colon_found, lemma_line_found,
    lemma_line_shrinks, lemma_no_colon, lemma_no_line, COLON, CR, LF, SPACE,
};
use bytes::{Buf, BytesMut};
use core::str::Utf8Error;
use vstd::prelude::*;
use vstd::slice::slice_subrange;
use vstd::string::{StringExecFns, StringSliceAdditionalSpecFns};

verus! {

/// Why a line could not be decoded.
#[derive(Clone, Copy, Debug)]
pub enum Error {
    /// A field value is not well-formed UTF-8.
    Utf8(Utf8Error),
}

/// What a call of [`Parser::next`] returned, with the event as a
/// mathematical value.
pub open spec fn yielded(r: Option<Result<Event, Error>>) -> Option<Yield> {
    match r {
        None => None,
        Some(Ok(event)) => Some(Ok(event@)),
        Some(Err(e)) => Some(Err(e)),
    }
}

/// Whether two byte slices hold the same bytes.
pub fn same_bytes(a: &[u8], b: &[u8]) -> (same: bool)
    ensures
        same == (a@ == b@),
{
    if a.len() != b.len() {
        return false;
    }
    let mut i: usize = 0;
    while i < a.len()
        invariant
            a@.len() == b@.len(),
            i <= a@.len(),
            forall|j: int| 0 <= j < i ==> a@[j] == b@[j],
        decreases a@.len() - i,
    {
        if a[i] != b[i] {
            return false;
        }
        i += 1;
    }
    assert(a@ =~= b@);
    true
}

/// Whether a NUL character occurs in `text`.
pub fn has_nul(text: &str) -> (found: bool)
    ensures
        found == text@.contains('\0'),
{
    let mut found = false;
    for c in it: text.chars()
        invariant
            it.seq() == text@,
            found == exists|i: int| 0 <= i < it.index() && text@[i] == '\0',
    {
        if c == '\0' {
            found = true;
        }
    }
    found
}

/// Whether every character of `text` is a decimal digit, as a reconnection
/// time has to be.
pub fn all_digits(text: &str) -> (all: bool)
    ensures
        all == forall|i: int| 0 <= i < text@.len() ==> '0' <= #[trigger] text@[i] <= '9',
{
    let mut all = true;
    for c in it: text.chars()
        invariant
            it.seq() == text@,
            all == forall|i: int| 0 <= i < it.index() ==> '0' <= #[trigger] text@[i] <= '9',
    {
        if !('0' <= c && c <= '9') {
            all = false;
        }
    }
    all
}

/// The accumulator for the block in progress.
pub struct EventBuilder {
    event_type: Option<String>,
    data: Option<String>,
    last_event_id: Option<String>,
}

impl View for EventBuilder {
    type V = Block;

    closed spec fn view(&self) -> Block {
        Block {
            event_type: text_of(self.event_type),
            data: text_of(self.data),
            last_event_id: text_of(self.last_event_id),
        }
    }
}

impl Default for EventBuilder {
    fn default() -> (builder: EventBuilder)
        ensures
            builder@ == Block::empty(),
    {
        EventBuilder { event_type: None, data: None, last_event_id: None }
    }
}

impl EventBuilder {
    /// Adds the field `name` with the raw value `value_bs` to the block.
    ///
    /// The value is decoded first: bytes that are not UTF-8 are reported
    /// and leave the block as it was.
    pub fn add_field(&mut self, name: &[u8], value_bs: &[u8]) -> (r: Result<(), Error>)
        ensures
            match old(self)@.add_field(name@, value_bs@) {
                Ok(block) => r is Ok && final(self)@ == block,
                Err(e) => r == Err::<(), Error>(e) && final(self)@ == old(self)@,
            },
    {
        let value = match core::str::from_utf8(value_bs) {
            Ok(value) => value,
            Err(e) => {
                return Err(Error::Utf8(e));
            },
        };
        proof {
            vstd::utf8::encode_utf8_decode_utf8(value@);
        }
        if same_bytes(name, "event".as_bytes()) {
            self.event_type = Some(value.to_owned());
        } else if same_bytes(name, "data".as_bytes()) {
            let joined = match self.data.take() {
                Some(mut data) => {
                    proof {
                        reveal_strlit("\n");
                        assert("\n"@ =~= seq!['\n']);
                    }
                    data.append("\n");
                    data.append(value);
                    data
                },
                None => value.to_owned(),
            };
            self.data = Some(joined);
        } else if same_bytes(name, "id".as_bytes()) && !has_nul(value) {
            self.last_event_id = Some(value.to_owned());
        } else if same_bytes(name, "retry".as_bytes()) && all_digits(value) {
            // A well-formed reconnection time. Nothing here acts on it.
        }
        Ok(())
    }

    /// Whether some field is set.
    pub fn ready(&self) -> (ready: bool)
        ensures
            ready == self@.ready(),
    {
        self.event_type.is_some() || self.data.is_some() || self.last_event_id.is_some()
    }

    /// Hands out the block as an event and starts a new block.
    pub fn build_and_clear(&mut self) -> (r: Result<Event, Error>)
        ensures
            r matches Ok(event) && event@ == old(self)@.event(),
            final(self)@ == Block::empty(),
    {
        let event = match self.event_type.take() {
            Some(event) => event,
            None => String::new(),
        };
        let data = match self.data.take() {
            Some(data) => data,
            None => String::new(),
        };
        let last_event_id = self.last_event_id.take();
        Ok(Event { event, data, last_event_id })
    }
}

/// The incremental parser. It owns the bytes that are not yet resolved into
/// lines and the block that the lines so far have built.
pub struct Parser {
    buf: BytesMut,
    builder: EventBuilder,
}

impl View for Parser {
    type V = ParserView;

    closed spec fn view(&self) -> ParserView {
        ParserView { pending: contents(self.buf), block: self.builder@ }
    }
}

impl Default for Parser {
    fn default() -> (parser: Parser)
        ensures
            parser@ == ParserView::fresh(),
    {
        Parser { buf: BytesMut::new(), builder: EventBuilder::default() }
    }
}

impl Parser {
    /// Appends a chunk of input. Nothing is decoded yet.
    pub fn put(&mut self, bs: &[u8])
        ensures
            final(self)@ == old(self)@.feed(bs@),
    {
        self.buf.extend_from_slice(bs)
    }

    /// Decodes buffered lines until one completes an event or cannot be
    /// decoded, and returns that; returns `None` once no complete line is
    /// left. A line that was read is gone from the buffer, also when it is
    /// reported as an error.
    pub fn next(&mut self) -> (r: Option<Result<Event, Error>>)
        ensures
            (final(self)@, yielded(r)) == old(self)@.next(),
    {
        loop
            invariant
                self@.next() == old(self)@.next(),
            decreases self@.pending.len(),
        {
            let ghost before = self@;
            let line = match self.parse_line() {
                Some(line) => line,
                None => {
                    return None;
                },
            };
            proof {
                lemma_line_shrinks(before.pending);
            }
            let line: &[u8] = line.as_ref();
            if line.len() == 0 && self.builder.ready() {
                return Some(self.builder.build_and_clear());
            }
            match memchr::memchr(COLON, line) {
                Some(0) => {},
                Some(i) => {
                    proof {
                        lemma_colon_found(line@, i as int);
                    }
                    let name = slice_subrange(line, 0, i);
                    let value = if i + 1 < line.len() && line[i + 1] == SPACE {
                        slice_subrange(line, i + 2, line.len())
                    } else {
                        slice_subrange(line, i + 1, line.len())
                    };
                    if let Err(err) = self.builder.add_field(name, value) {
                        return Some(Err(err));
                    }
                },
                None => {
                    proof {
                        lemma_no_colon(line@);
                    }
                    let value = slice_subrange(line, 0, 0);
                    assert(value@ =~= Seq::<u8>::empty());
                    if let Err(err) = self.builder.add_field(line, value) {
                        return Some(Err(err));
                    }
                },
            }
        }
    }

    /// Takes the first complete line off the buffer, with its terminator,
    /// and returns the line without the terminator; returns `None` and
    /// leaves the buffer alone when no line is complete.
    pub fn parse_line(&mut self) -> (line: Option<BytesMut>)
        ensures
            match line {
                Some(line) => {
                    &&& has_line(old(self)@.pending)
                    &&& contents(line) == first_line(old(self)@.pending)
                    &&& final(self)@ == (ParserView {
                        pending: after_first_line(old(self)@.pending),
                        block: old(self)@.block,
                    })
                },
                None => !has_line(old(self)@.pending) && final(self)@ == old(self)@,
            },
    {
        let ghost pending = self@.pending;
        match memchr::memchr2(CR, LF, self.buf.as_ref()) {
            Some(i) => {
                proof {
                    lemma_line_found(pending, i as int);
                }
                let line = self.buf.split_to(i);
                let rest: &[u8] = self.buf.as_ref();
                if rest.len() >= 2 && rest[0] == CR && rest[1] == LF {
                    self.buf.advance(2);
                } else {
                    self.buf.advance(1);
                }
                assert(contents(self.buf) =~= after_first_line(pending));
                Some(line)
            },
            None => {
                proof {
                    lemma_no_line(pending);
                }
                None
            },
        }
    }

    /// The bytes that are buffered and not yet resolved into lines.
    pub fn bytes(&self) -> (bs: &[u8])
        ensures
            bs@ == self@.pending,
    {
        self.buf.as_ref()
    }
}

impl From<&[u8]> for Parser {
    /// A parser that has `b` buffered.
    fn from(b: &[u8]) -> (parser: Parser)
        ensures
            parser@ == ParserView::fresh().feed(b@),
    {
        let parser = Parser { buf: BytesMut::from(b), builder: EventBuilder::default() };
        assert(parser@.pending =~= ParserView::fresh().feed(b@).pending);
        parser
    }
}

impl From<&str> for Parser {
    /// A parser that has the bytes of `s` buffered.
    fn from(s: &str) -> (parser: Parser)
        ensures
            parser@ == ParserView::fresh().feed(s.spec_bytes()),
    {
        Parser::from(s.as_bytes())
    }
}

/// A parser is more than its view: the buffer it owns is no mathematical
/// value, so no spec function names the parser that `from` returns. What
/// `from` promises is its own `ensures`.
impl vstd::std_specs::convert::FromSpecImpl<&[u8]> for Parser {
    open spec fn obeys_from_spec() -> bool {
        false
    }

    open spec fn from_spec(b: &[u8]) -> Parser {
        arbitrary()
    }
}

/// As for byte slices: what `from` promises is its own `ensures`.
impl vstd::std_specs::convert::FromSpecImpl<&str> for Parser {
    open spec fn obeys_from_spec() -> bool {
        false
    }

    open spec fn from_spec(s: &str) -> Parser {
        arbitrary()
    }
}

} // verus!
