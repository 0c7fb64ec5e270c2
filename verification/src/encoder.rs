//! The streaming encoder: adapts one subscriber's event sequence to the
//! line-oriented server-push wire framing, one frame per event, plus the
//! keep-alive frame sent on a fixed cadence while the stream is idle.

use vstd::prelude::*;

use crate::event::Event;
use crate::event::EventView;
use crate::text::dec_digits;
use crate::text::u64_to_dec;

verus! {

/// The frame announcing the subscriber's own identity: a named event whose
/// payload is the identity in decimal.
pub open spec fn identity_frame_text(id: u64) -> Seq<char> {
    "event: user\ndata: "@ + dec_digits(id as int) + "\n\n"@
}

/// The frame carrying one attributed chat line.
pub open spec fn reply_frame_text(text: Seq<char>) -> Seq<char> {
    "data: "@ + text + "\n\n"@
}

/// The no-op comment frame that keeps an otherwise idle connection open.
pub open spec fn keep_alive_text() -> Seq<char> {
    ":\n\n"@
}

/// Where one subscriber's stream stands: still owing the identity
/// announcement, or streaming replies.
#[derive(Clone, Copy, Debug, PartialEq, Eq, Structural)]
pub enum EncoderState {
    Announcing,
    Streaming,
}

/// Per-subscriber streaming encoder. Starts in `Announcing`; the first
/// event must be the subscriber's `Identity`, which is emitted exactly once
/// as a named frame; from then on each `Reply` becomes one data frame. An
/// event that breaks that order is refused and changes nothing.
pub struct Encoder {
    state: EncoderState,
}

impl Encoder {
    pub closed spec fn spec_state(&self) -> EncoderState {
        self.state
    }

    pub fn new() -> (e: Self)
        ensures
            e.spec_state() == EncoderState::Announcing,
    {
        Encoder { state: EncoderState::Announcing }
    }

    /// Turns one channel event into one wire frame and advances the state
    /// machine.
    pub fn encode(&mut self, ev: &Event) -> (r: Option<String>)
        ensures
            match (old(self).spec_state(), ev@) {
                (EncoderState::Announcing, EventView::Identity(id)) => {
                    &&& r matches Some(f) && f@ =~= identity_frame_text(id)
                    &&& final(self).spec_state() == EncoderState::Streaming
                },
                (EncoderState::Streaming, EventView::Reply(t)) => {
                    &&& r matches Some(f) && f@ =~= reply_frame_text(t)
                    &&& final(self).spec_state() == EncoderState::Streaming
                },
                _ => r is None && final(self).spec_state() == old(self).spec_state(),
            },
    {
        match (self.state, ev) {
            (EncoderState::Announcing, Event::Identity(id)) => {
                self.state = EncoderState::Streaming;
                let mut s = String::from_str("event: user\ndata: ");
                let d = u64_to_dec(*id);
                s.append(d.as_str());
                s.append("\n\n");
                Some(s)
            },
            (EncoderState::Streaming, Event::Reply(t)) => {
                let mut s = String::from_str("data: ");
                s.append(t.as_str());
                s.append("\n\n");
                Some(s)
            },
            _ => None,
        }
    }
}

/// The keep-alive frame, the same every time it is sent.
pub fn keep_alive_frame() -> (s: String)
    ensures
        s@ =~= keep_alive_text(),
{
    String::from_str(":\n\n")
}

} // verus!
