//! The record a completed block is decoded into.

use vstd::prelude::*;

verus! {

/// One event of the stream.
#[derive(Debug, Clone, PartialEq, Eq, Hash)]
pub struct Event {
    /// The event type; empty when the block named none.
    pub event: String,
    /// The payload: the block's `data` values, joined by line feeds.
    pub data: String,
    /// The block's `id` value, if the block had an `id` field.
    pub last_event_id: Option<String>,
}

/// An [`Event`] as a mathematical value.
pub struct EventView {
    pub event: Seq<char>,
    pub data: Seq<char>,
    pub last_event_id: Option<Seq<char>>,
}

/// The text of an optional string.
pub open spec fn text_of(s: Option<String>) -> Option<Seq<char>> {
    match s {
        Some(s) => Some(s@),
        None => None,
    }
}

impl View for Event {
    type V = EventView;

    open spec fn view(&self) -> EventView {
        EventView {
            event: self.event@,
            data: self.data@,
            last_event_id: text_of(self.last_event_id),
        }
    }
}

} // verus!
