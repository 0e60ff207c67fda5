//! Incremental decoder for the Server-Sent-Events wire format.
//!
//! A [`parser::Parser`] buffers chunks of bytes as they arrive and decodes
//! them line by line into [`Event`]s, however the stream was cut into
//! chunks. A [`Body`] owns a parser and an upstream source of chunks and
//! decides, poll by poll, whether to yield, to ask the source for more, to
//! wait or to end.
//!
//! What the decoder computes is defined in [`wire`] and [`model`] and stated
//! in the contracts of the executable code; [`laws`] proves what follows
//! from it. [`trusted`] lists what is assumed of the code this crate calls
//! and does not verify.

pub mod body;
pub mod error;
pub mod event;
pub mod laws;
pub mod model;
pub mod parser;
pub mod trusted;
pub mod wire;

pub use body::Body;
pub use error::{Error, ErrorKind};
pub use event::Event;
