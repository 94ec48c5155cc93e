//! Events: what a track is made of. Each is a channel message, a
//! system-exclusive message or a meta message, and stands in the track
//! behind the delta-time that separates it from the event before.

use vstd::prelude::*;
use crate::chunk::track::channel::{
    channel_bytes, lemma_status_splits, lemma_voice_reads_within, lemma_voice_round_trip,
    low_nibble, opens_with_mode, voice_of, ChannelMessage, ChannelMessageView, ModeMessage,
    ModeMessageError, VoiceMessage, VoiceMessageData, VoiceMessageDataError,
    VoiceMessageDataView, FIRST_MODE_CODE,
};
use crate::chunk::track::meta::{
    lemma_meta_reads_within, lemma_meta_round_trip, lemma_variable_reads_within,
    lemma_variable_round_trip, meta_bytes, meta_of, read_variable, variable_bytes,
    variable_span, write_variable, MetaMessage, MetaMessageError, MetaMessageView,
};
use crate::chunk::track::primitives::{Channel, CHANNELS};
use crate::vlq::{
    decoded_len, decoded_value, encoding, lemma_decoded_value_bound, lemma_round_trip,
    VLQError, Vlq, MAX_REPRESENTABLE,
};

verus! {

/// The status byte that opens a system-exclusive message.
pub const SYSEX_STATUS: u8 = 0xF0;

/// The status byte that opens the continuation of a system-exclusive
/// message.
pub const SYSEX_CONTINUATION_STATUS: u8 = 0xF7;

/// The status byte that opens a meta message.
pub const META_STATUS: u8 = 0xFF;

/// A system-exclusive message: raw bytes behind their length. Its view is
/// the bytes.
#[derive(Debug, PartialEq, Eq)]
pub struct SysexMessage {
    length: Vlq,
    bytes: Vec<u8>,
}

impl View for SysexMessage {
    type V = Seq<u8>;

    closed spec fn view(&self) -> Seq<u8> {
        self.bytes@
    }
}

impl Clone for SysexMessage {
    fn clone(&self) -> (copy: SysexMessage)
        ensures
            copy@ == self@,
    {
        proof {
            use_type_invariant(self);
        }
        SysexMessage { length: self.length, bytes: self.bytes.clone() }
    }
}

impl SysexMessage {
    #[verifier::type_invariant]
    spec fn length_matches(&self) -> bool {
        self.length@ == self.bytes@.len() && self.bytes@.len() <= MAX_REPRESENTABLE
    }

    /// Makes a message of `bytes`, if their number fits a variable-length
    /// quantity.
    pub fn new(bytes: Vec<u8>) -> (r: Option<SysexMessage>)
        ensures
            match r {
                Some(message) => bytes@.len() <= MAX_REPRESENTABLE && message@ == bytes@,
                None => bytes@.len() > MAX_REPRESENTABLE,
            },
    {
        if bytes.len() > MAX_REPRESENTABLE as usize {
            None
        } else {
            Some(SysexMessage::from_payload(bytes))
        }
    }

    /// Makes a message of `bytes`, whose number is known to fit.
    pub(crate) fn from_payload(bytes: Vec<u8>) -> (message: SysexMessage)
        requires
            bytes@.len() <= MAX_REPRESENTABLE,
        ensures
            message@ == bytes@,
    {
        let length = Vlq::new(bytes.len() as u32);
        SysexMessage { length, bytes }
    }

    /// The number of bytes in the message.
    pub fn length(&self) -> (length: Vlq)
        ensures
            length@ == self@.len(),
            self@.len() <= MAX_REPRESENTABLE,
    {
        proof {
            use_type_invariant(self);
        }
        self.length
    }

    /// The bytes of the message.
    pub fn bytes(&self) -> (bytes: &[u8])
        ensures
            bytes@ == self@,
            bytes@.len() <= MAX_REPRESENTABLE,
    {
        proof {
            use_type_invariant(self);
        }
        self.bytes.as_slice()
    }
}

/// What happens at one moment of a track.
#[derive(Debug, Clone, PartialEq, Eq)]
pub enum Event {
    Midi(ChannelMessage),
    Sysex(SysexMessage),
    Meta(MetaMessage),
}

/// An event with its parts as plain values.
pub enum EventView {
    Midi(ChannelMessageView),
    Sysex(Seq<u8>),
    Meta(MetaMessageView),
}

/// Why no event can be read.
#[derive(Debug, PartialEq, Eq, Clone, Copy)]
pub enum EventError {
    NotEnoughBytes,
    MetaMessage(MetaMessageError),
    ModeMessage(ModeMessageError),
    VoiceMessageData(VoiceMessageDataError),
}

impl EventView {
    /// An event that a file can hold: every part is well formed.
    pub open spec fn wf(self) -> bool {
        match self {
            EventView::Midi(message) => message.wf(),
            EventView::Sysex(bytes) => bytes.len() <= MAX_REPRESENTABLE,
            EventView::Meta(message) => message.wf(),
        }
    }

    /// Whether this is a control change, the one event whose last byte is
    /// a status byte.
    pub open spec fn is_control_change(self) -> bool {
        self matches EventView::Midi(
            ChannelMessageView::Voice { data: VoiceMessageDataView::ControlChange, .. },
        )
    }
}

impl View for Event {
    type V = EventView;

    open spec fn view(&self) -> EventView {
        match *self {
            Event::Midi(message) => EventView::Midi(message@),
            Event::Sysex(message) => EventView::Sysex(message@),
            Event::Meta(message) => EventView::Meta(message@),
        }
    }
}

/// An event as it stands in a file.
pub open spec fn event_bytes(event: EventView) -> Seq<u8> {
    match event {
        EventView::Midi(message) => channel_bytes(message),
        EventView::Sysex(bytes) => variable_bytes(SYSEX_STATUS, bytes),
        EventView::Meta(message) => seq![META_STATUS] + meta_bytes(message),
    }
}

/// What reading one event from the front of `bytes` gives: the event and
/// the number of bytes read. The first byte is the status byte and decides
/// the kind of event.
pub open spec fn event_of(bytes: Seq<u8>) -> Result<(EventView, nat), EventError> {
    if bytes.len() == 0 {
        Err(EventError::NotEnoughBytes)
    } else if bytes[0] == SYSEX_STATUS || bytes[0] == SYSEX_CONTINUATION_STATUS {
        match variable_span(bytes) {
            None => Err(EventError::NotEnoughBytes),
            Some((start, end)) => Ok((EventView::Sysex(bytes.subrange(start, end)), end as nat)),
        }
    } else if bytes[0] == META_STATUS {
        match meta_of(bytes.skip(1)) {
            Err(e) => Err(EventError::MetaMessage(e)),
            Ok((message, len)) => Ok((EventView::Meta(message), 1 + len)),
        }
    } else if opens_with_mode(bytes) {
        match ModeMessage::of_code(bytes[1]) {
            None => Err(EventError::ModeMessage(ModeMessageError::InvalidValue)),
            Some(mode) => Ok((EventView::Midi(ChannelMessageView::Mode(mode)), 2)),
        }
    } else {
        match voice_of(bytes) {
            Err(e) => Err(EventError::VoiceMessageData(e)),
            Ok((data, len)) => Ok(
                (
                    EventView::Midi(
                        ChannelMessageView::Voice { channel: low_nibble(bytes[0]), data },
                    ),
                    len,
                ),
            ),
        }
    }
}

impl Event {
    /// Whether this event can be written: its meta message, if it is one,
    /// is well formed. Channel and system-exclusive messages always are.
    pub open spec fn wf(&self) -> bool {
        match *self {
            Event::Meta(message) => message.wf(),
            _ => true,
        }
    }

    /// Tells whether this event can be written.
    pub fn is_wf(&self) -> (ok: bool)
        ensures
            ok == self.wf(),
    {
        match self {
            Event::Meta(message) => message.is_wf(),
            _ => true,
        }
    }

    /// Tells whether this event is a control change.
    pub fn is_control_change(&self) -> (yes: bool)
        ensures
            yes == self@.is_control_change(),
    {
        match self {
            Event::Midi(ChannelMessage::Voice { data: VoiceMessageData::ControlChange, .. }) => true,
            _ => false,
        }
    }

    /// The bytes of this event as they stand in a file.
    pub fn to_bytes(&self) -> (bytes: Vec<u8>)
        requires
            self.wf(),
        ensures
            bytes@ == event_bytes(self@),
            self@.wf(),
    {
        match self {
            Event::Midi(message) => message.to_bytes(),
            Event::Sysex(message) => write_variable(SYSEX_STATUS, message.bytes()),
            Event::Meta(message) => {
                let mut bytes: Vec<u8> = Vec::new();
                bytes.push(META_STATUS);
                let tail = message.to_bytes();
                bytes.extend_from_slice(tail.as_slice());
                assert(bytes@ =~= event_bytes(self@));
                bytes
            },
        }
    }

    /// Reads one event from the front of `bytes` and hands back what
    /// follows it.
    #[verifier::rlimit(30)]
    pub fn parse(bytes: &[u8]) -> (r: Result<(Event, &[u8]), EventError>)
        ensures
            match r {
                Ok((event, rest)) => {
                    &&& event_of(bytes@) matches Ok((view, len))
                    &&& event@ == view
                    &&& event@.wf()
                    &&& event.wf()
                    &&& 1 <= len <= bytes@.len()
                    &&& rest@ == bytes@.skip(len as int)
                },
                Err(e) => event_of(bytes@) == Err::<(EventView, nat), EventError>(e),
            },
    {
        if bytes.len() == 0 {
            return Err(EventError::NotEnoughBytes);
        }
        let status: u8 = bytes[0];
        if status == SYSEX_STATUS || status == SYSEX_CONTINUATION_STATUS {
            let (payload, rest) = match read_variable(bytes) {
                Some(read) => read,
                None => {
                    return Err(EventError::NotEnoughBytes);
                },
            };
            let message = SysexMessage::from_payload(vstd::slice::slice_to_vec(payload));
            Ok((Event::Sysex(message), rest))
        } else if status == META_STATUS {
            let tail = vstd::slice::slice_subrange(bytes, 1, bytes.len());
            assert(tail@ =~= bytes@.skip(1));
            match MetaMessage::parse(tail) {
                Ok((message, rest)) => {
                    assert(rest@ =~= bytes@.skip(1 + meta_of(tail@)->Ok_0.1 as int));
                    Ok((Event::Meta(message), rest))
                },
                Err(e) => Err(EventError::from(e)),
            }
        } else if status - status % 0x10 == VoiceMessage::ControlChange.to_u8() && bytes.len() >= 2
            && bytes[1] >= FIRST_MODE_CODE {
            let tail = vstd::slice::slice_subrange(bytes, 1, bytes.len());
            assert(tail@ =~= bytes@.skip(1));
            match ModeMessage::parse(tail) {
                Ok((mode, rest)) => {
                    assert(rest@ =~= bytes@.skip(2));
                    Ok((Event::Midi(ChannelMessage::Mode(mode)), rest))
                },
                Err(e) => Err(EventError::from(e)),
            }
        } else {
            match VoiceMessageData::parse(bytes) {
                Ok((data, rest)) => {
                    let channel = Channel::from_status(status);
                    Ok((Event::Midi(ChannelMessage::Voice { channel, data }), rest))
                },
                Err(e) => Err(EventError::from(e)),
            }
        }
    }
}

/// An event of a track, with the time that separates it from the event
/// before.
#[derive(Debug, Clone, PartialEq, Eq)]
pub struct MTrkEvent {
    delta_time: Vlq,
    event: Event,
}

/// A track event with its parts as plain values.
pub struct MTrkEventView {
    pub delta_time: nat,
    pub event: EventView,
}

/// Why no track event can be read.
#[derive(Debug, PartialEq, Eq, Clone, Copy)]
pub enum MTrkEventError {
    NotEnoughBytes,
    DeltaTime(VLQError),
    Event(EventError),
}

impl MTrkEventView {
    /// A track event that a file can hold.
    pub open spec fn wf(self) -> bool {
        self.delta_time <= MAX_REPRESENTABLE && self.event.wf()
    }
}

impl View for MTrkEvent {
    type V = MTrkEventView;

    closed spec fn view(&self) -> MTrkEventView {
        MTrkEventView { delta_time: self.delta_time@, event: self.event@ }
    }
}

/// A track event as it stands in a file: the delta-time, then the event.
pub open spec fn mtrk_bytes(event: MTrkEventView) -> Seq<u8> {
    encoding(event.delta_time) + event_bytes(event.event)
}

/// What reading one track event from the front of `bytes` gives: the
/// event and the number of bytes read.
pub open spec fn mtrk_of(bytes: Seq<u8>) -> Result<(MTrkEventView, nat), MTrkEventError> {
    if bytes.len() == 0 {
        Err(MTrkEventError::NotEnoughBytes)
    } else {
        match decoded_len(bytes) {
            None => Err(MTrkEventError::DeltaTime(VLQError::NotEnoughBytes)),
            Some(len) => match event_of(bytes.skip(len as int)) {
                Err(e) => Err(MTrkEventError::Event(e)),
                Ok((event, event_len)) => Ok(
                    (
                        MTrkEventView { delta_time: decoded_value(bytes, len), event },
                        len + event_len,
                    ),
                ),
            },
        }
    }
}

impl MTrkEvent {
    /// Whether this track event can be written: its event can.
    pub closed spec fn wf(&self) -> bool {
        self.event.wf()
    }

    /// Tells whether this track event can be written.
    pub fn is_wf(&self) -> (ok: bool)
        ensures
            ok == self.wf(),
    {
        self.event.is_wf()
    }

    /// Makes the track event that holds `event`, `delta_time` ticks after the
    /// event before.
    pub fn new(delta_time: Vlq, event: Event) -> (r: MTrkEvent)
        ensures
            r@ == (MTrkEventView { delta_time: delta_time@, event: event@ }),
            r.wf() == event.wf(),
    {
        MTrkEvent { delta_time, event }
    }

    /// The ticks since the event before.
    pub fn delta_time(&self) -> (delta_time: Vlq)
        ensures
            delta_time@ == self@.delta_time,
    {
        self.delta_time
    }

    /// The event itself.
    pub fn event(&self) -> (event: &Event)
        ensures
            event@ == self@.event,
            event.wf() == self.wf(),
    {
        &self.event
    }

    /// The bytes of this track event as they stand in a file.
    pub fn to_bytes(&self) -> (bytes: Vec<u8>)
        requires
            self.wf(),
        ensures
            bytes@ == mtrk_bytes(self@),
            self@.wf(),
    {
        let mut bytes = self.delta_time.to_bytes();
        let tail = self.event.to_bytes();
        bytes.extend_from_slice(tail.as_slice());
        assert(bytes@ =~= mtrk_bytes(self@));
        bytes
    }

    /// Reads one track event from the front of `bytes` and hands back
    /// what follows it.
    pub fn parse(bytes: &[u8]) -> (r: Result<(MTrkEvent, &[u8]), MTrkEventError>)
        ensures
            match r {
                Ok((event, rest)) => {
                    &&& mtrk_of(bytes@) matches Ok((view, len))
                    &&& event@ == view
                    &&& event@.wf()
                    &&& event.wf()
                    &&& 2 <= len <= bytes@.len()
                    &&& rest@ == bytes@.skip(len as int)
                },
                Err(e) => mtrk_of(bytes@) == Err::<(MTrkEventView, nat), MTrkEventError>(e),
            },
    {
        if bytes.len() == 0 {
            return Err(MTrkEventError::NotEnoughBytes);
        }
        let (delta_time, after) = match Vlq::parse(bytes) {
            Ok(parsed) => parsed,
            Err(e) => {
                return Err(MTrkEventError::from(e));
            },
        };
        match Event::parse(after) {
            Ok((event, rest)) => {
                proof {
                    let len = decoded_len(bytes@)->Some_0;
                    let event_len = event_of(after@)->Ok_0.1;
                    assert(rest@ =~= bytes@.skip((len + event_len) as int));
                }
                Ok((MTrkEvent { delta_time, event }, rest))
            },
            Err(e) => Err(MTrkEventError::from(e)),
        }
    }
}

/// A mode message reads back as itself.
pub proof fn lemma_mode_event_round_trip(mode: ModeMessage, rest: Seq<u8>)
    ensures
        event_of(event_bytes(EventView::Midi(ChannelMessageView::Mode(mode))) + rest) == Ok::<
            (EventView, nat),
            EventError,
        >((EventView::Midi(ChannelMessageView::Mode(mode)), 2)),
        event_bytes(EventView::Midi(ChannelMessageView::Mode(mode))).len() == 2,
{
    let bytes = event_bytes(EventView::Midi(ChannelMessageView::Mode(mode))) + rest;
    mode.lemma_code_is_inverse(0);
    assert(bytes[0] == 0xB0 && bytes[1] == mode.code());
}

/// A well-formed voice message reads back as itself; a control change only
/// where no byte from 120 on follows it.
pub proof fn lemma_voice_event_round_trip(channel: u8, data: VoiceMessageDataView, rest: Seq<u8>)
    requires
        channel < CHANNELS,
        data.wf(),
        data is ControlChange ==> rest.len() == 0 || rest[0] < FIRST_MODE_CODE,
    ensures
        event_of(
            event_bytes(EventView::Midi(ChannelMessageView::Voice { channel, data })) + rest,
        ) == Ok::<(EventView, nat), EventError>(
            (
                EventView::Midi(ChannelMessageView::Voice { channel, data }),
                event_bytes(EventView::Midi(ChannelMessageView::Voice { channel, data })).len(),
            ),
        ),
        event_bytes(EventView::Midi(ChannelMessageView::Voice { channel, data })).len() >= 1,
{
    let bytes = event_bytes(EventView::Midi(ChannelMessageView::Voice { channel, data })) + rest;
    lemma_voice_round_trip(channel, data, rest);
    lemma_status_splits(data.kind(), channel);
    if data.kind() == VoiceMessage::ControlChange {
        assert(bytes.len() >= 2 ==> bytes[1] == rest[0]);
    }
}

/// A system-exclusive message of a length that can be written reads back
/// as itself.
pub proof fn lemma_sysex_event_round_trip(payload: Seq<u8>, rest: Seq<u8>)
    requires
        payload.len() <= MAX_REPRESENTABLE,
    ensures
        event_of(event_bytes(EventView::Sysex(payload)) + rest) == Ok::<
            (EventView, nat),
            EventError,
        >((EventView::Sysex(payload), event_bytes(EventView::Sysex(payload)).len())),
        event_bytes(EventView::Sysex(payload)).len() >= 2,
{
    lemma_variable_round_trip(SYSEX_STATUS, payload, rest);
}

/// A well-formed meta message reads back as itself.
pub proof fn lemma_meta_event_round_trip(message: MetaMessageView, rest: Seq<u8>)
    requires
        message.wf(),
    ensures
        event_of(event_bytes(EventView::Meta(message)) + rest) == Ok::<
            (EventView, nat),
            EventError,
        >((EventView::Meta(message), event_bytes(EventView::Meta(message)).len())),
        event_bytes(EventView::Meta(message)).len() >= 3,
{
    let bytes = event_bytes(EventView::Meta(message)) + rest;
    lemma_meta_round_trip(message, rest);
    assert(bytes[0] == META_STATUS);
    assert(bytes.skip(1) =~= meta_bytes(message) + rest);
}

/// Reading the bytes of a well-formed event, with anything after them,
/// gives the event back and stops where its bytes end. The one exception
/// is a control change, which is its status byte alone: followed by a
/// byte from 120 on, the two read as a mode message.
#[verifier::rlimit(30)]
pub proof fn lemma_event_round_trip(event: EventView, rest: Seq<u8>)
    requires
        event.wf(),
        event.is_control_change() ==> rest.len() == 0 || rest[0] < FIRST_MODE_CODE,
    ensures
        event_bytes(event).len() >= 1,
        event_of(event_bytes(event) + rest) == Ok::<(EventView, nat), EventError>(
            (event, event_bytes(event).len()),
        ),
{
    match event {
        EventView::Midi(ChannelMessageView::Mode(mode)) => {
            lemma_mode_event_round_trip(mode, rest);
        },
        EventView::Midi(ChannelMessageView::Voice { channel, data }) => {
            lemma_voice_event_round_trip(channel, data, rest);
        },
        EventView::Sysex(payload) => {
            lemma_sysex_event_round_trip(payload, rest);
        },
        EventView::Meta(message) => {
            lemma_meta_event_round_trip(message, rest);
        },
    }
}

/// Behind the encoding of a delta-time, a track event is read as that
/// delta-time and whatever event the bytes after it hold.
pub proof fn lemma_mtrk_of_parts(delta_time: nat, tail: Seq<u8>)
    requires
        delta_time <= MAX_REPRESENTABLE,
    ensures
        mtrk_of(encoding(delta_time) + tail) == match event_of(tail) {
            Err(e) => Err::<(MTrkEventView, nat), MTrkEventError>(MTrkEventError::Event(e)),
            Ok((event, len)) => Ok(
                (MTrkEventView { delta_time, event }, encoding(delta_time).len() + len),
            ),
        },
        encoding(delta_time).len() >= 1,
{
    lemma_round_trip(delta_time, tail);
}

/// Reading the bytes of a well-formed track event, with anything after
/// them, gives the track event back and stops where its bytes end; with
/// the same exception as for the event alone.
#[verifier::rlimit(30)]
pub proof fn lemma_mtrk_round_trip(event: MTrkEventView, rest: Seq<u8>)
    requires
        event.wf(),
        event.event.is_control_change() ==> rest.len() == 0 || rest[0] < FIRST_MODE_CODE,
    ensures
        mtrk_bytes(event).len() >= 2,
        mtrk_bytes(event)[0] == encoding(event.delta_time)[0],
        mtrk_of(mtrk_bytes(event) + rest) == Ok::<(MTrkEventView, nat), MTrkEventError>(
            (event, mtrk_bytes(event).len()),
        ),
{
    let tail = event_bytes(event.event) + rest;
    lemma_mtrk_of_parts(event.delta_time, tail);
    lemma_event_round_trip(event.event, rest);
    assert(mtrk_bytes(event) + rest =~= encoding(event.delta_time) + tail);
}

/// What is read as an event is well formed and lies within the buffer.
pub proof fn lemma_event_reads_within(bytes: Seq<u8>)
    ensures
        event_of(bytes) matches Ok((event, len)) ==> event.wf() && 1 <= len <= bytes.len(),
{
    if bytes.len() > 0 {
        if bytes[0] == SYSEX_STATUS || bytes[0] == SYSEX_CONTINUATION_STATUS {
            lemma_variable_reads_within(bytes);
        } else if bytes[0] == META_STATUS {
            lemma_meta_reads_within(bytes.skip(1));
        } else if !opens_with_mode(bytes) {
            lemma_voice_reads_within(bytes);
        }
    }
}

/// What is read as a track event is well formed and lies within the
/// buffer; it takes at least two bytes.
pub proof fn lemma_mtrk_reads_within(bytes: Seq<u8>)
    ensures
        mtrk_of(bytes) matches Ok((event, len)) ==> event.wf() && 2 <= len <= bytes.len(),
{
    match decoded_len(bytes) {
        None => {},
        Some(len) => {
            lemma_decoded_value_bound(bytes, len);
            lemma_event_reads_within(bytes.skip(len as int));
        },
    }
}

impl From<MetaMessageError> for EventError {
    /// A fault of the meta message, as a fault of the event.
    fn from(e: MetaMessageError) -> (wrapped: EventError)
        ensures
            wrapped == EventError::MetaMessage(e),
    {
        EventError::MetaMessage(e)
    }
}

impl vstd::std_specs::convert::FromSpecImpl<MetaMessageError> for EventError {
    open spec fn obeys_from_spec() -> bool {
        true
    }

    open spec fn from_spec(e: MetaMessageError) -> EventError {
        EventError::MetaMessage(e)
    }
}

impl From<VoiceMessageDataError> for EventError {
    /// A fault of the voice message, as a fault of the event.
    fn from(e: VoiceMessageDataError) -> (wrapped: EventError)
        ensures
            wrapped == EventError::VoiceMessageData(e),
    {
        EventError::VoiceMessageData(e)
    }
}

impl vstd::std_specs::convert::FromSpecImpl<VoiceMessageDataError> for EventError {
    open spec fn obeys_from_spec() -> bool {
        true
    }

    open spec fn from_spec(e: VoiceMessageDataError) -> EventError {
        EventError::VoiceMessageData(e)
    }
}

impl From<ModeMessageError> for EventError {
    /// A fault of the mode message, as a fault of the event.
    fn from(e: ModeMessageError) -> (wrapped: EventError)
        ensures
            wrapped == EventError::ModeMessage(e),
    {
        EventError::ModeMessage(e)
    }
}

impl vstd::std_specs::convert::FromSpecImpl<ModeMessageError> for EventError {
    open spec fn obeys_from_spec() -> bool {
        true
    }

    open spec fn from_spec(e: ModeMessageError) -> EventError {
        EventError::ModeMessage(e)
    }
}

impl From<VLQError> for MTrkEventError {
    /// A fault of the delta-time, as a fault of the track event.
    fn from(e: VLQError) -> (wrapped: MTrkEventError)
        ensures
            wrapped == MTrkEventError::DeltaTime(e),
    {
        MTrkEventError::DeltaTime(e)
    }
}

impl vstd::std_specs::convert::FromSpecImpl<VLQError> for MTrkEventError {
    open spec fn obeys_from_spec() -> bool {
        true
    }

    open spec fn from_spec(e: VLQError) -> MTrkEventError {
        MTrkEventError::DeltaTime(e)
    }
}

impl From<EventError> for MTrkEventError {
    /// A fault of the event, as a fault of the track event.
    fn from(e: EventError) -> (wrapped: MTrkEventError)
        ensures
            wrapped == MTrkEventError::Event(e),
    {
        MTrkEventError::Event(e)
    }
}

impl vstd::std_specs::convert::FromSpecImpl<EventError> for MTrkEventError {
    open spec fn obeys_from_spec() -> bool {
        true
    }

    open spec fn from_spec(e: EventError) -> MTrkEventError {
        MTrkEventError::Event(e)
    }
}

} // verus!
