//! The error of the stream adapter: either the transport failed or a line
//! could not be decoded.

use vstd::prelude::*;

verus! {

/// What went wrong.
#[derive(Clone, Debug)]
pub enum ErrorKind<E> {
    /// The parser could not decode a line.
    Sse(crate::parser::Error),
    /// The upstream source reported an error, kept as it came.
    Inner(E),
}

/// An error of the stream adapter.
#[derive(Debug, Clone)]
pub struct Error<E> {
    kind: Box<ErrorKind<E>>,
}

impl<E> View for Error<E> {
    type V = ErrorKind<E>;

    closed spec fn view(&self) -> ErrorKind<E> {
        *self.kind
    }
}

impl<E> Error<E> {
    /// Unwraps the error into its kind.
    pub fn kind(self) -> (kind: ErrorKind<E>)
        ensures
            kind == self@,
    {
        *self.kind
    }

    /// Wraps an error of the upstream source.
    pub fn inner(err: E) -> (e: Self)
        ensures
            e@ == ErrorKind::Inner(err),
    {
        Self { kind: Box::new(ErrorKind::Inner(err)) }
    }

    /// Wraps an error of the parser.
    pub fn parser(err: crate::parser::Error) -> (e: Self)
        ensures
            e@ == ErrorKind::<E>::Sse(err),
    {
        Self { kind: Box::new(ErrorKind::Sse(err)) }
    }
}

} // verus!
