//! The track chunk: a run of events, each a delta-time and a channel,
//! system-exclusive or meta message.

pub mod channel;
pub mod chunk;
pub mod event;
pub mod meta;
pub mod primitives;

pub use channel::{
    ChannelMessage, ChannelMessageView, ModeMessage, ModeMessageError, VoiceMessage,
    VoiceMessageData, VoiceMessageDataError, VoiceMessageDataView, VoiceMessageError,
};
pub use chunk::{Chunk, ChunkError, EventsList};
pub use event::{
    Event, EventError, EventView, MTrkEvent, MTrkEventError, MTrkEventView, SysexMessage,
};
pub use meta::{
    KeyType, KeyTypeError, MetaMessage, MetaMessageError, MetaMessageView, SharpsOrFlats,
    SharpsOrFlatsError,
};
pub use primitives::{Channel, ChannelError, Tempo, U7Error, U7};
