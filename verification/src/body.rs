//! The stream adapter: it owns an upstream source of byte chunks and a
//! parser, and decides on each poll what happens next. Polling the source
//! is left to the caller, who reports back what came of it.

use crate::error::{Error, ErrorKind};
use crate::event::Event;
use crate::model::{ParserView, Yield};
use crate::parser::Parser;
use vstd::prelude::*;

verus! {

/// What a poll of the upstream source came to.
pub enum Polled<E> {
    /// The source handed out a chunk of bytes.
    Chunk(Vec<u8>),
    /// The source failed.
    Failed(E),
    /// The source is exhausted: no chunk will follow.
    Exhausted,
    /// The source has no chunk ready yet.
    NotReady,
}

/// What the adapter does next.
pub enum Turn<E> {
    /// Hand this item to the consumer.
    Yield(Result<Event, Error<E>>),
    /// Poll the upstream source and report the outcome to [`Body::turn`].
    Poll,
    /// The stream has ended.
    Done,
    /// Nothing is ready; poll the adapter again once the source has
    /// progressed.
    Wait,
}

/// Whether `turn` hands on what the parser yielded: the event, the error
/// wrapped as a parse error, or `Poll` when the parser yielded nothing.
pub open spec fn turn_of<E>(yielded: Option<Yield>, turn: Turn<E>) -> bool {
    match yielded {
        Some(Ok(event)) => turn matches Turn::Yield(Ok(ev)) && ev@ == event,
        Some(Err(e)) => turn matches Turn::Yield(Err(err)) && err@ == ErrorKind::<E>::Sse(e),
        None => turn is Poll,
    }
}

/// Adapts a source of byte chunks into a source of events.
pub struct Body<S> {
    inner: S,
    parser: Parser,
}

impl<S> Body<S> {
    /// The upstream source.
    pub closed spec fn source(self) -> S {
        self.inner
    }

    /// The state of the parser.
    pub closed spec fn state(self) -> ParserView {
        self.parser@
    }

    /// Wraps an upstream source; nothing is buffered yet.
    pub fn new(inner: S) -> (body: Self)
        ensures
            body.source() == inner,
            body.state() == ParserView::fresh(),
    {
        Self { inner, parser: Parser::default() }
    }

    /// The upstream source, to poll it.
    pub fn inner_mut(&mut self) -> (inner: &mut S)
        ensures
            *inner == old(self).source(),
            final(self).source() == *final(inner),
            final(self).state() == old(self).state(),
    {
        &mut self.inner
    }

    /// Starts a poll: asks the parser first. What the buffered bytes yield
    /// is handed on without consulting the source; only when they yield
    /// nothing is the source to be polled.
    pub fn begin<E>(&mut self) -> (turn: Turn<E>)
        ensures
            final(self).state() == old(self).state().next().0,
            turn_of(old(self).state().next().1, turn),
            final(self).source() == old(self).source(),
    {
        match self.parser.next() {
            Some(Ok(event)) => Turn::Yield(Ok(event)),
            Some(Err(err)) => Turn::Yield(Err(Error::parser(err))),
            None => Turn::Poll,
        }
    }

    /// Goes on with a poll once the source was polled. A chunk is fed to
    /// the parser, which is asked again; an error of the source is handed
    /// on; an exhausted source ends the stream; a source that is not ready
    /// leaves the adapter waiting.
    pub fn turn<E>(&mut self, polled: Polled<E>) -> (turn: Turn<E>)
        ensures
            final(self).source() == old(self).source(),
            match polled {
                Polled::Chunk(bytes) => {
                    &&& final(self).state() == old(self).state().feed(bytes@).next().0
                    &&& turn_of(old(self).state().feed(bytes@).next().1, turn)
                },
                Polled::Failed(e) => {
                    &&& final(self).state() == old(self).state()
                    &&& turn matches Turn::Yield(Err(err))
                    &&& err@ == ErrorKind::Inner(e)
                },
                Polled::Exhausted => final(self).state() == old(self).state() && turn is Done,
                Polled::NotReady => final(self).state() == old(self).state() && turn is Wait,
            },
    {
        match polled {
            Polled::Chunk(bytes) => {
                self.parser.put(bytes.as_slice());
                self.begin()
            },
            Polled::Failed(e) => Turn::Yield(Err(Error::inner(e))),
            Polled::Exhausted => Turn::Done,
            Polled::NotReady => Turn::Wait,
        }
    }
}

} // verus!
