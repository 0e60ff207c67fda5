//! The decoder as mathematics: the block in progress, the parser's state,
//! and what `next` yields from it.

use crate::event::EventView;
use crate::parser::Error;
use crate::trusted::utf8_error;
use crate::wire::{
    after_first_line, field_name, field_value, first_line, has_line, is_comment,
    lemma_line_shrinks,
};
use vstd::prelude::*;
use vstd::string::StringSliceAdditionalSpecFns;
use vstd::utf8::{decode_utf8, valid_utf8};

verus! {

/// The fields set so far in the block in progress.
pub struct Block {
    pub event_type: Option<Seq<char>>,
    pub data: Option<Seq<char>>,
    pub last_event_id: Option<Seq<char>>,
}

impl Block {
    /// The block in which no field is set.
    pub open spec fn empty() -> Block {
        Block { event_type: None, data: None, last_event_id: None }
    }

    /// Some field is set: a blank line will dispatch this block.
    pub open spec fn ready(self) -> bool {
        self.event_type is Some || self.data is Some || self.last_event_id is Some
    }

    /// The event this block is dispatched as.
    pub open spec fn event(self) -> EventView {
        EventView {
            event: match self.event_type {
                Some(t) => t,
                None => Seq::empty(),
            },
            data: match self.data {
                Some(d) => d,
                None => Seq::empty(),
            },
            last_event_id: self.last_event_id,
        }
    }

    /// The block after a field with the decoded value `text`.
    ///
    /// `event` replaces the event type. `data` starts the payload, or adds a
    /// line feed and `text` to the payload there is. `id` replaces the id
    /// unless `text` holds a NUL. Any other name, `retry` among them, leaves
    /// the block as it is.
    pub open spec fn set(self, name: Seq<u8>, text: Seq<char>) -> Block {
        if name == "event".spec_bytes() {
            Block { event_type: Some(text), ..self }
        } else if name == "data".spec_bytes() {
            Block {
                data: Some(
                    match self.data {
                        Some(d) => d + seq!['\n'] + text,
                        None => text,
                    },
                ),
                ..self
            }
        } else if name == "id".spec_bytes() && !text.contains('\0') {
            Block { last_event_id: Some(text), ..self }
        } else {
            self
        }
    }

    /// The block after a field whose value is the raw bytes `value`: the
    /// value is decoded as UTF-8 whatever the name is, and bytes that are not
    /// UTF-8 are an error.
    pub open spec fn add_field(self, name: Seq<u8>, value: Seq<u8>) -> Result<Block, Error> {
        if valid_utf8(value) {
            Ok(self.set(name, decode_utf8(value)))
        } else {
            Err(Error::Utf8(utf8_error(value)))
        }
    }

    /// The block after one line that does not dispatch it. A comment sets
    /// nothing; any other line is a field.
    pub open spec fn add_line(self, line: Seq<u8>) -> Result<Block, Error> {
        if is_comment(line) {
            Ok(self)
        } else {
            self.add_field(field_name(line), field_value(line))
        }
    }
}

/// What one call of `next` can yield: an event, or the error of a line.
pub type Yield = Result<EventView, Error>;

/// The state of a parser: the bytes not yet resolved into lines, and the
/// block in progress.
pub struct ParserView {
    pub pending: Seq<u8>,
    pub block: Block,
}

impl ParserView {
    /// The state of a new parser.
    pub open spec fn fresh() -> ParserView {
        ParserView { pending: Seq::empty(), block: Block::empty() }
    }

    /// The state after `chunk` is appended.
    pub open spec fn feed(self, chunk: Seq<u8>) -> ParserView {
        ParserView { pending: self.pending + chunk, ..self }
    }

    /// The state after the first pending line is consumed, and what that
    /// line yields. A blank line dispatches a ready block and starts a new
    /// one; a line that cannot be decoded yields its error and leaves the
    /// block as it was; any other line yields nothing.
    pub open spec fn step(self) -> (ParserView, Option<Yield>)
        recommends
            has_line(self.pending),
    {
        let line = first_line(self.pending);
        let rest = after_first_line(self.pending);
        if line.len() == 0 && self.block.ready() {
            (ParserView { pending: rest, block: Block::empty() }, Some(Ok(self.block.event())))
        } else {
            match self.block.add_line(line) {
                Ok(block) => (ParserView { pending: rest, block }, None),
                Err(e) => (ParserView { pending: rest, block: self.block }, Some(Err(e))),
            }
        }
    }

    /// The state after one call of `next`, and what the call returns: lines
    /// are consumed until one yields something or no complete line is left.
    pub open spec fn next(self) -> (ParserView, Option<Yield>)
        decreases self.pending.len(),
        via Self::next_terminates
    {
        if !has_line(self.pending) {
            (self, None)
        } else {
            let (after, yielded) = self.step();
            match yielded {
                Some(_) => (after, yielded),
                None => after.next(),
            }
        }
    }

    #[via_fn]
    proof fn next_terminates(self) {
        if has_line(self.pending) {
            lemma_line_shrinks(self.pending);
        }
    }

    /// The state after `next` is called until it returns `None`, and what
    /// the calls before that one returned, in order.
    pub open spec fn drain(self) -> (ParserView, Seq<Yield>)
        decreases self.pending.len(),
        via Self::drain_terminates
    {
        let (after, yielded) = self.next();
        match yielded {
            None => (after, Seq::empty()),
            Some(y) => {
                let (end, more) = after.drain();
                (end, seq![y] + more)
            },
        }
    }

    #[via_fn]
    proof fn drain_terminates(self) {
        self.lemma_next_consumes();
    }

    /// The state after a stream adapter has worked through `chunks`, and
    /// what it yielded, in order: it drains the parser, and for each chunk
    /// in turn feeds the chunk and drains the parser again.
    pub open spec fn run(self, chunks: Seq<Seq<u8>>) -> (ParserView, Seq<Yield>)
        decreases chunks.len(),
    {
        let (drained, head) = self.drain();
        if chunks.len() == 0 {
            (drained, head)
        } else {
            let (end, tail) = drained.feed(chunks.first()).run(chunks.drop_first());
            (end, head + tail)
        }
    }

    /// A call of `next` never lengthens the buffer; one that yields
    /// something shortens it, and one that yields nothing leaves no
    /// complete line behind.
    pub proof fn lemma_next_consumes(self)
        ensures
            self.next().0.pending.len() <= self.pending.len(),
            self.next().1 is Some ==> self.next().0.pending.len() < self.pending.len(),
            self.next().1 is None ==> !has_line(self.next().0.pending),
        decreases self.pending.len(),
    {
        if has_line(self.pending) {
            lemma_line_shrinks(self.pending);
            if self.step().1 is None {
                self.step().0.lemma_next_consumes();
            }
        }
    }
}

} // verus!
