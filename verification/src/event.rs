//! Events on one subscriber's outbound channel.

use vstd::prelude::*;

verus! {

/// An event delivered to one subscriber.
#[derive(Debug)]
pub enum Event {
    /// The subscriber's own identity; enqueued exactly once, before anything
    /// else, when the subscription is made.
    Identity(u64),
    /// An attributed chat line published by another subscriber.
    Reply(String),
}

/// Ghost form of an event, over mathematical values.
pub ghost enum EventView {
    Identity(u64),
    Reply(Seq<char>),
}

impl View for Event {
    type V = EventView;

    open spec fn view(&self) -> EventView {
        match self {
            Event::Identity(id) => EventView::Identity(*id),
            Event::Reply(s) => EventView::Reply(s@),
        }
    }
}

} // verus!
