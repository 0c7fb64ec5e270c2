//! Core of a real-time broadcast hub: a connection registry that fans a
//! published chat line out to every other live subscriber, an allocator for
//! process-unique subscriber identities, and an encoder that turns per-
//! subscriber events into server-sent-event frames.

mod channel;
mod encoder;
mod event;
mod ident;
mod registry;
mod text;

pub use encoder::identity_frame_text;
pub use encoder::keep_alive_frame;
pub use encoder::keep_alive_text;
pub use encoder::reply_frame_text;
pub use encoder::Encoder;
pub use encoder::EncoderState;
pub use event::Event;
pub use event::EventView;
pub use ident::IdAllocator;
pub use registry::hist_shape;
pub use registry::lemma_identity_first;
pub use registry::lemma_publish_delivery;
pub use registry::lemma_publish_no_resurrection;
pub use registry::lemma_publish_solo;
pub use registry::publish_step;
pub use registry::Registry;
pub use registry::RegistryView;
pub use registry::Subscription;
pub use text::all_digits;
pub use text::dec_digits;
pub use text::dec_value;
pub use text::digit_char;
pub use text::digit_val;
pub use text::format_reply;
pub use text::is_digit;
pub use text::lemma_decimal_round_trip;
pub use text::parse_subscriber_id;
pub use text::reply_text;
pub use text::u64_to_dec;
