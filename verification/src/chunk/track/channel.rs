//! Channel messages: the voice messages, each addressed to a channel by the
//! low nibble of its status byte, and the mode messages that share the
//! status byte of a control change.

use vstd::prelude::*;
use crate::chunk::track::primitives::{Channel, U7, U7Error, CHANNELS, U7_LIMIT};

verus! {

/// The kinds of voice message, each named by the high nibble of its status
/// byte.
#[derive(Debug, PartialEq, Eq, Clone, Copy)]
pub enum VoiceMessage {
    NoteOff,
    NoteOn,
    PolyKeyPressure,
    ControlChange,
    ProgramChange,
    ChannelPressure,
    PitchBend,
}

/// Why a byte stands for no kind of voice message.
#[derive(Debug, PartialEq, Eq, Clone, Copy)]
pub enum VoiceMessageError {
    InvalidValue,
}

impl VoiceMessage {
    /// The status byte of this kind on channel 0.
    pub open spec fn code(self) -> u8 {
        match self {
            VoiceMessage::NoteOff => 0x80,
            VoiceMessage::NoteOn => 0x90,
            VoiceMessage::PolyKeyPressure => 0xA0,
            VoiceMessage::ControlChange => 0xB0,
            VoiceMessage::ProgramChange => 0xC0,
            VoiceMessage::ChannelPressure => 0xD0,
            VoiceMessage::PitchBend => 0xE0,
        }
    }

    /// The kind that `code` stands for, if it stands for one.
    pub open spec fn of_code(code: u8) -> Option<VoiceMessage> {
        if code == VoiceMessage::NoteOff.code() {
            Some(VoiceMessage::NoteOff)
        } else if code == VoiceMessage::NoteOn.code() {
            Some(VoiceMessage::NoteOn)
        } else if code == VoiceMessage::PolyKeyPressure.code() {
            Some(VoiceMessage::PolyKeyPressure)
        } else if code == VoiceMessage::ControlChange.code() {
            Some(VoiceMessage::ControlChange)
        } else if code == VoiceMessage::ProgramChange.code() {
            Some(VoiceMessage::ProgramChange)
        } else if code == VoiceMessage::ChannelPressure.code() {
            Some(VoiceMessage::ChannelPressure)
        } else if code == VoiceMessage::PitchBend.code() {
            Some(VoiceMessage::PitchBend)
        } else {
            None
        }
    }

    /// The byte that stands for this value in a file.
    pub fn to_u8(self) -> (code: u8)
        ensures
            code == self.code(),
            high_nibble(code) == code,
    {
        match self {
            VoiceMessage::NoteOff => 0x80,
            VoiceMessage::NoteOn => 0x90,
            VoiceMessage::PolyKeyPressure => 0xA0,
            VoiceMessage::ControlChange => 0xB0,
            VoiceMessage::ProgramChange => 0xC0,
            VoiceMessage::ChannelPressure => 0xD0,
            VoiceMessage::PitchBend => 0xE0,
        }
    }

    /// Codes and kinds match one for one.
    pub proof fn lemma_code_is_inverse(self, code: u8)
        ensures
            VoiceMessage::of_code(self.code()) == Some(self),
            VoiceMessage::of_code(code) == Some(self) <==> code == self.code(),
    {
    }
}

impl TryFrom<u8> for VoiceMessage {
    type Error = VoiceMessageError;

    /// Reads the kind of voice message that `value` stands for.
    fn try_from(value: u8) -> (r: Result<VoiceMessage, VoiceMessageError>)
        ensures
            match r {
                Ok(kind) => VoiceMessage::of_code(value) == Some(kind),
                Err(e) => VoiceMessage::of_code(value) is None && e
                    == VoiceMessageError::InvalidValue,
            },
    {
        if value == VoiceMessage::NoteOff.to_u8() {
            Ok(VoiceMessage::NoteOff)
        } else if value == VoiceMessage::NoteOn.to_u8() {
            Ok(VoiceMessage::NoteOn)
        } else if value == VoiceMessage::PolyKeyPressure.to_u8() {
            Ok(VoiceMessage::PolyKeyPressure)
        } else if value == VoiceMessage::ControlChange.to_u8() {
            Ok(VoiceMessage::ControlChange)
        } else if value == VoiceMessage::ProgramChange.to_u8() {
            Ok(VoiceMessage::ProgramChange)
        } else if value == VoiceMessage::ChannelPressure.to_u8() {
            Ok(VoiceMessage::ChannelPressure)
        } else if value == VoiceMessage::PitchBend.to_u8() {
            Ok(VoiceMessage::PitchBend)
        } else {
            Err(VoiceMessageError::InvalidValue)
        }
    }
}

impl vstd::std_specs::convert::TryFromSpecImpl<u8> for VoiceMessage {
    open spec fn obeys_try_from_spec() -> bool {
        true
    }

    open spec fn try_from_spec(value: u8) -> Result<VoiceMessage, VoiceMessageError> {
        match VoiceMessage::of_code(value) {
            Some(found) => Ok(found),
            None => Err(VoiceMessageError::InvalidValue),
        }
    }
}

impl core::ops::BitOr<Channel> for VoiceMessage {
    type Output = u8;

    /// The status byte of this kind of message on the channel `rhs`.
    fn bitor(self, rhs: Channel) -> (status: u8)
        ensures
            status == self.code() | rhs@,
            status == self.code() + rhs@,
    {
        let code: u8 = self.to_u8();
        let channel: u8 = rhs.get();
        assert(code | channel == code + channel) by (bit_vector)
            requires
                code % 0x10 == 0,
                channel < 0x10,
        ;
        code | channel
    }
}

impl vstd::std_specs::ops::BitOrSpecImpl<Channel> for VoiceMessage {
    open spec fn obeys_bitor_spec() -> bool {
        true
    }

    open spec fn bitor_req(self, rhs: Channel) -> bool {
        true
    }

    open spec fn bitor_spec(self, rhs: Channel) -> u8 {
        self.code() | rhs@
    }
}

impl core::ops::BitOr<VoiceMessage> for Channel {
    type Output = u8;

    /// The status byte of the kind of message `rhs` on this channel.
    fn bitor(self, rhs: VoiceMessage) -> (status: u8)
        ensures
            status == self@ | rhs.code(),
            status == rhs.code() + self@,
    {
        let code: u8 = rhs.to_u8();
        let channel: u8 = self.get();
        assert(channel | code == code + channel) by (bit_vector)
            requires
                code % 0x10 == 0,
                channel < 0x10,
        ;
        channel | code
    }
}

impl vstd::std_specs::ops::BitOrSpecImpl<VoiceMessage> for Channel {
    open spec fn obeys_bitor_spec() -> bool {
        true
    }

    open spec fn bitor_req(self, rhs: VoiceMessage) -> bool {
        true
    }

    open spec fn bitor_spec(self, rhs: VoiceMessage) -> u8 {
        self@ | rhs.code()
    }
}

/// The status byte `b` with its low nibble cleared.
pub open spec fn high_nibble(b: u8) -> u8 {
    (b - b % 0x10) as u8
}

/// The low nibble of the status byte `b`: a channel number.
pub open spec fn low_nibble(b: u8) -> u8 {
    b % 0x10
}

/// The mode messages, each named by the data byte that follows the status
/// byte of a control change.
#[derive(Debug, PartialEq, Eq, Clone, Copy)]
pub enum ModeMessage {
    AllSoundOff,
    ResetAllControllers,
    LocalControl,
    AllNotesOff,
    OmniOff,
    OmniOn,
    Mono,
    Poly,
}

/// Why no mode message can be read.
#[derive(Debug, PartialEq, Eq, Clone, Copy)]
pub enum ModeMessageError {
    InvalidValue,
    NotEnoughBytes,
}

/// The smallest data byte that names a mode message rather than a
/// controller.
pub const FIRST_MODE_CODE: u8 = 120;

impl ModeMessage {
    /// The data byte that stands for this mode message.
    pub open spec fn code(self) -> u8 {
        match self {
            ModeMessage::AllSoundOff => 120,
            ModeMessage::ResetAllControllers => 121,
            ModeMessage::LocalControl => 122,
            ModeMessage::AllNotesOff => 123,
            ModeMessage::OmniOff => 124,
            ModeMessage::OmniOn => 125,
            ModeMessage::Mono => 126,
            ModeMessage::Poly => 127,
        }
    }

    /// The mode message that `code` stands for, if it stands for one.
    pub open spec fn of_code(code: u8) -> Option<ModeMessage> {
        if code == ModeMessage::AllSoundOff.code() {
            Some(ModeMessage::AllSoundOff)
        } else if code == ModeMessage::ResetAllControllers.code() {
            Some(ModeMessage::ResetAllControllers)
        } else if code == ModeMessage::LocalControl.code() {
            Some(ModeMessage::LocalControl)
        } else if code == ModeMessage::AllNotesOff.code() {
            Some(ModeMessage::AllNotesOff)
        } else if code == ModeMessage::OmniOff.code() {
            Some(ModeMessage::OmniOff)
        } else if code == ModeMessage::OmniOn.code() {
            Some(ModeMessage::OmniOn)
        } else if code == ModeMessage::Mono.code() {
            Some(ModeMessage::Mono)
        } else if code == ModeMessage::Poly.code() {
            Some(ModeMessage::Poly)
        } else {
            None
        }
    }

    /// What reading a mode message from the front of `bytes` gives: the
    /// message named by the first byte.
    pub open spec fn of_bytes(bytes: Seq<u8>) -> Result<ModeMessage, ModeMessageError> {
        if bytes.len() == 0 {
            Err(ModeMessageError::NotEnoughBytes)
        } else {
            match ModeMessage::of_code(bytes[0]) {
                Some(message) => Ok(message),
                None => Err(ModeMessageError::InvalidValue),
            }
        }
    }

    /// The byte that stands for this value in a file.
    pub fn to_u8(self) -> (code: u8)
        ensures
            code == self.code(),
            FIRST_MODE_CODE <= code < U7_LIMIT,
    {
        match self {
            ModeMessage::AllSoundOff => 120,
            ModeMessage::ResetAllControllers => 121,
            ModeMessage::LocalControl => 122,
            ModeMessage::AllNotesOff => 123,
            ModeMessage::OmniOff => 124,
            ModeMessage::OmniOn => 125,
            ModeMessage::Mono => 126,
            ModeMessage::Poly => 127,
        }
    }

    /// The two bytes of this mode message on `channel`: the status byte of
    /// a control change, then the code.
    pub fn to_be_bytes(self, channel: u8) -> (bytes: [u8; 2])
        requires
            channel < CHANNELS,
        ensures
            bytes@ == seq![(VoiceMessage::ControlChange.code() + channel) as u8, self.code()],
    {
        let bytes: [u8; 2] = [VoiceMessage::ControlChange.to_u8() + channel, self.to_u8()];
        assert(bytes@ =~= seq![
            (VoiceMessage::ControlChange.code() + channel) as u8,
            self.code(),
        ]);
        bytes
    }

    /// Reads the mode message that the first byte of `bytes` names, and
    /// hands back what follows it.
    pub fn parse(bytes: &[u8]) -> (r: Result<(ModeMessage, &[u8]), ModeMessageError>)
        ensures
            match r {
                Ok((message, rest)) => ModeMessage::of_bytes(bytes@) == Ok::<
                    ModeMessage,
                    ModeMessageError,
                >(message) && rest@ == bytes@.skip(1),
                Err(e) => ModeMessage::of_bytes(bytes@) == Err::<ModeMessage, ModeMessageError>(
                    e,
                ),
            },
    {
        if bytes.len() == 0 {
            return Err(ModeMessageError::NotEnoughBytes);
        }
        let message = match ModeMessage::try_from(bytes[0]) {
            Ok(message) => message,
            Err(e) => {
                return Err(e);
            },
        };
        Ok((message, vstd::slice::slice_subrange(bytes, 1, bytes.len())))
    }

    /// Codes and mode messages match one for one, and the codes are the
    /// data bytes from 120 on.
    pub proof fn lemma_code_is_inverse(self, code: u8)
        ensures
            ModeMessage::of_code(self.code()) == Some(self),
            ModeMessage::of_code(code) == Some(self) <==> code == self.code(),
            ModeMessage::of_code(code) is Some <==> FIRST_MODE_CODE <= code < U7_LIMIT,
    {
    }
}

impl TryFrom<u8> for ModeMessage {
    type Error = ModeMessageError;

    /// Reads the mode message that `value` stands for.
    fn try_from(value: u8) -> (r: Result<ModeMessage, ModeMessageError>)
        ensures
            match r {
                Ok(message) => ModeMessage::of_code(value) == Some(message),
                Err(e) => ModeMessage::of_code(value) is None && e
                    == ModeMessageError::InvalidValue,
            },
    {
        if value == ModeMessage::AllSoundOff.to_u8() {
            Ok(ModeMessage::AllSoundOff)
        } else if value == ModeMessage::ResetAllControllers.to_u8() {
            Ok(ModeMessage::ResetAllControllers)
        } else if value == ModeMessage::LocalControl.to_u8() {
            Ok(ModeMessage::LocalControl)
        } else if value == ModeMessage::AllNotesOff.to_u8() {
            Ok(ModeMessage::AllNotesOff)
        } else if value == ModeMessage::OmniOff.to_u8() {
            Ok(ModeMessage::OmniOff)
        } else if value == ModeMessage::OmniOn.to_u8() {
            Ok(ModeMessage::OmniOn)
        } else if value == ModeMessage::Mono.to_u8() {
            Ok(ModeMessage::Mono)
        } else if value == ModeMessage::Poly.to_u8() {
            Ok(ModeMessage::Poly)
        } else {
            Err(ModeMessageError::InvalidValue)
        }
    }
}

impl vstd::std_specs::convert::TryFromSpecImpl<u8> for ModeMessage {
    open spec fn obeys_try_from_spec() -> bool {
        true
    }

    open spec fn try_from_spec(value: u8) -> Result<ModeMessage, ModeMessageError> {
        match ModeMessage::of_code(value) {
            Some(found) => Ok(found),
            None => Err(ModeMessageError::InvalidValue),
        }
    }
}

/// What a voice message carries besides its channel.
#[derive(Debug, Clone, Copy, PartialEq, Eq)]
pub enum VoiceMessageData {
    NoteOff { note_number: U7, velocity: U7 },
    NoteOn { note_number: U7, velocity: U7 },
    PolyKeyPressure { note_number: U7, pressure: U7 },
    ControlChange,
    ProgramChange { program_number: U7 },
    ChannelPressure { pressure: U7 },
    PitchBend { change: [U7; 2] },
}

/// A voice message's data with its bytes as plain integers.
pub enum VoiceMessageDataView {
    NoteOff { note_number: u8, velocity: u8 },
    NoteOn { note_number: u8, velocity: u8 },
    PolyKeyPressure { note_number: u8, pressure: u8 },
    ControlChange,
    ProgramChange { program_number: u8 },
    ChannelPressure { pressure: u8 },
    PitchBend { first: u8, second: u8 },
}

/// Why no voice message can be read: the fault and the field it is in.
#[derive(Debug, PartialEq, Eq, Clone, Copy)]
pub enum VoiceMessageDataError {
    NotEnoughBytes,
    MessageType,
    NoteNumber(U7Error),
    Velocity(U7Error),
    ProgramNumber(U7Error),
    Pressure(U7Error),
    PitchBend(U7Error),
}

impl VoiceMessageDataView {
    /// The kind of voice message this data belongs to.
    pub open spec fn kind(self) -> VoiceMessage {
        match self {
            VoiceMessageDataView::NoteOff { .. } => VoiceMessage::NoteOff,
            VoiceMessageDataView::NoteOn { .. } => VoiceMessage::NoteOn,
            VoiceMessageDataView::PolyKeyPressure { .. } => VoiceMessage::PolyKeyPressure,
            VoiceMessageDataView::ControlChange => VoiceMessage::ControlChange,
            VoiceMessageDataView::ProgramChange { .. } => VoiceMessage::ProgramChange,
            VoiceMessageDataView::ChannelPressure { .. } => VoiceMessage::ChannelPressure,
            VoiceMessageDataView::PitchBend { .. } => VoiceMessage::PitchBend,
        }
    }

    /// The data bytes, in the order they follow the status byte.
    pub open spec fn data(self) -> Seq<u8> {
        match self {
            VoiceMessageDataView::NoteOff { note_number, velocity } => seq![note_number, velocity],
            VoiceMessageDataView::NoteOn { note_number, velocity } => seq![note_number, velocity],
            VoiceMessageDataView::PolyKeyPressure { note_number, pressure } => seq![
                note_number,
                pressure,
            ],
            VoiceMessageDataView::ControlChange => seq![],
            VoiceMessageDataView::ProgramChange { program_number } => seq![program_number],
            VoiceMessageDataView::ChannelPressure { pressure } => seq![pressure],
            VoiceMessageDataView::PitchBend { first, second } => seq![first, second],
        }
    }

    /// Every data byte is below 128.
    pub open spec fn wf(self) -> bool {
        forall|i: int| 0 <= i < self.data().len() ==> self.data()[i] < U7_LIMIT
    }
}

/// A voice message as it stands in a file: the status byte, which joins the
/// kind's high nibble and the channel, then the data bytes.
pub open spec fn voice_bytes(channel: u8, data: VoiceMessageDataView) -> Seq<u8>
    recommends
        channel < CHANNELS,
{
    seq![(data.kind().code() + channel) as u8] + data.data()
}

/// The data byte at `bytes[1]`, or the reason there is none: the buffer
/// ends before it, or it has the top bit set, which `overflow` reports.
pub open spec fn one_data_byte(bytes: Seq<u8>, overflow: VoiceMessageDataError) -> Result<
    u8,
    VoiceMessageDataError,
> {
    if bytes.len() < 2 {
        Err(VoiceMessageDataError::NotEnoughBytes)
    } else if bytes[1] >= U7_LIMIT {
        Err(overflow)
    } else {
        Ok(bytes[1])
    }
}

/// The data bytes at `bytes[1]` and `bytes[2]`, or the first fault met on
/// the way, reading left to right.
pub open spec fn two_data_bytes(
    bytes: Seq<u8>,
    first_overflow: VoiceMessageDataError,
    second_overflow: VoiceMessageDataError,
) -> Result<(u8, u8), VoiceMessageDataError> {
    if bytes.len() < 2 {
        Err(VoiceMessageDataError::NotEnoughBytes)
    } else if bytes[1] >= U7_LIMIT {
        Err(first_overflow)
    } else if bytes.len() < 3 {
        Err(VoiceMessageDataError::NotEnoughBytes)
    } else if bytes[2] >= U7_LIMIT {
        Err(second_overflow)
    } else {
        Ok((bytes[1], bytes[2]))
    }
}

/// What reading a voice message's data from the front of `bytes` gives:
/// the data and the number of bytes read, status byte included. A control
/// change is its status byte alone.
pub open spec fn voice_of(bytes: Seq<u8>) -> Result<
    (VoiceMessageDataView, nat),
    VoiceMessageDataError,
> {
    if bytes.len() == 0 {
        Err(VoiceMessageDataError::NotEnoughBytes)
    } else {
        match VoiceMessage::of_code(high_nibble(bytes[0])) {
            None => Err(VoiceMessageDataError::MessageType),
            Some(VoiceMessage::NoteOff) => match two_data_bytes(
                bytes,
                VoiceMessageDataError::NoteNumber(U7Error::Overflow),
                VoiceMessageDataError::Velocity(U7Error::Overflow),
            ) {
                Err(e) => Err(e),
                Ok((note_number, velocity)) => Ok(
                    (VoiceMessageDataView::NoteOff { note_number, velocity }, 3),
                ),
            },
            Some(VoiceMessage::NoteOn) => match two_data_bytes(
                bytes,
                VoiceMessageDataError::NoteNumber(U7Error::Overflow),
                VoiceMessageDataError::Velocity(U7Error::Overflow),
            ) {
                Err(e) => Err(e),
                Ok((note_number, velocity)) => Ok(
                    (VoiceMessageDataView::NoteOn { note_number, velocity }, 3),
                ),
            },
            Some(VoiceMessage::PolyKeyPressure) => match two_data_bytes(
                bytes,
                VoiceMessageDataError::NoteNumber(U7Error::Overflow),
                VoiceMessageDataError::Pressure(U7Error::Overflow),
            ) {
                Err(e) => Err(e),
                Ok((note_number, pressure)) => Ok(
                    (VoiceMessageDataView::PolyKeyPressure { note_number, pressure }, 3),
                ),
            },
            Some(VoiceMessage::ControlChange) => Ok((VoiceMessageDataView::ControlChange, 1)),
            Some(VoiceMessage::ProgramChange) => match one_data_byte(
                bytes,
                VoiceMessageDataError::ProgramNumber(U7Error::Overflow),
            ) {
                Err(e) => Err(e),
                Ok(program_number) => Ok(
                    (VoiceMessageDataView::ProgramChange { program_number }, 2),
                ),
            },
            Some(VoiceMessage::ChannelPressure) => match one_data_byte(
                bytes,
                VoiceMessageDataError::Pressure(U7Error::Overflow),
            ) {
                Err(e) => Err(e),
                Ok(pressure) => Ok((VoiceMessageDataView::ChannelPressure { pressure }, 2)),
            },
            Some(VoiceMessage::PitchBend) => match two_data_bytes(
                bytes,
                VoiceMessageDataError::PitchBend(U7Error::Overflow),
                VoiceMessageDataError::PitchBend(U7Error::Overflow),
            ) {
                Err(e) => Err(e),
                Ok((first, second)) => Ok((VoiceMessageDataView::PitchBend { first, second }, 3)),
            },
        }
    }
}

impl View for VoiceMessageData {
    type V = VoiceMessageDataView;

    open spec fn view(&self) -> VoiceMessageDataView {
        match *self {
            VoiceMessageData::NoteOff { note_number, velocity } => VoiceMessageDataView::NoteOff {
                note_number: note_number@,
                velocity: velocity@,
            },
            VoiceMessageData::NoteOn { note_number, velocity } => VoiceMessageDataView::NoteOn {
                note_number: note_number@,
                velocity: velocity@,
            },
            VoiceMessageData::PolyKeyPressure {
                note_number,
                pressure,
            } => VoiceMessageDataView::PolyKeyPressure {
                note_number: note_number@,
                pressure: pressure@,
            },
            VoiceMessageData::ControlChange => VoiceMessageDataView::ControlChange,
            VoiceMessageData::ProgramChange {
                program_number,
            } => VoiceMessageDataView::ProgramChange { program_number: program_number@ },
            VoiceMessageData::ChannelPressure { pressure } => VoiceMessageDataView::ChannelPressure {
                pressure: pressure@,
            },
            VoiceMessageData::PitchBend { change } => VoiceMessageDataView::PitchBend {
                first: change@[0]@,
                second: change@[1]@,
            },
        }
    }
}

/// Reads the data byte at `bytes[index]`.
fn data_byte_at(bytes: &[u8], index: usize, overflow: VoiceMessageDataError) -> (r: Result<
    U7,
    VoiceMessageDataError,
>)
    ensures
        match r {
            Ok(u) => index < bytes@.len() && bytes@[index as int] < U7_LIMIT && u@
                == bytes@[index as int],
            Err(e) => if index >= bytes@.len() {
                e == VoiceMessageDataError::NotEnoughBytes
            } else {
                bytes@[index as int] >= U7_LIMIT && e == overflow
            },
        },
{
    if index >= bytes.len() {
        return Err(VoiceMessageDataError::NotEnoughBytes);
    }
    match U7::try_from(bytes[index]) {
        Ok(u) => Ok(u),
        Err(_) => Err(overflow),
    }
}

impl VoiceMessageData {
    /// The high nibble of this message's status byte: the low nibble of
    /// the result is always clear.
    pub fn get_first_nibble(&self) -> (nibble: u8)
        ensures
            nibble == self@.kind().code(),
            high_nibble(nibble) == nibble,
    {
        match self {
            VoiceMessageData::NoteOff { .. } => VoiceMessage::NoteOff.to_u8(),
            VoiceMessageData::NoteOn { .. } => VoiceMessage::NoteOn.to_u8(),
            VoiceMessageData::PolyKeyPressure { .. } => VoiceMessage::PolyKeyPressure.to_u8(),
            VoiceMessageData::ControlChange => VoiceMessage::ControlChange.to_u8(),
            VoiceMessageData::ProgramChange { .. } => VoiceMessage::ProgramChange.to_u8(),
            VoiceMessageData::ChannelPressure { .. } => VoiceMessage::ChannelPressure.to_u8(),
            VoiceMessageData::PitchBend { .. } => VoiceMessage::PitchBend.to_u8(),
        }
    }

    /// The bytes of this message on `channel` as they stand in a file.
    pub fn to_be_bytes(&self, channel: &Channel) -> (bytes: Vec<u8>)
        ensures
            bytes@ == voice_bytes(channel@, self@),
            self@.wf(),
            channel@ < CHANNELS,
    {
        let status: u8 = self.get_first_nibble() + channel.get();
        let mut bytes: Vec<u8> = Vec::with_capacity(3);
        bytes.push(status);
        match self {
            VoiceMessageData::NoteOff { note_number, velocity } => {
                bytes.push(note_number.get());
                bytes.push(velocity.get());
            },
            VoiceMessageData::NoteOn { note_number, velocity } => {
                bytes.push(note_number.get());
                bytes.push(velocity.get());
            },
            VoiceMessageData::PolyKeyPressure { note_number, pressure } => {
                bytes.push(note_number.get());
                bytes.push(pressure.get());
            },
            VoiceMessageData::ControlChange => {},
            VoiceMessageData::ProgramChange { program_number } => {
                bytes.push(program_number.get());
            },
            VoiceMessageData::ChannelPressure { pressure } => {
                bytes.push(pressure.get());
            },
            VoiceMessageData::PitchBend { change } => {
                bytes.push(change[0].get());
                bytes.push(change[1].get());
            },
        }
        assert(bytes@ =~= voice_bytes(channel@, self@));
        bytes
    }

    /// Reads one voice message's data from the front of `bytes`, whose
    /// first byte is the status byte, and hands back what follows.
    pub fn parse(bytes: &[u8]) -> (r: Result<(VoiceMessageData, &[u8]), VoiceMessageDataError>)
        ensures
            match r {
                Ok((data, rest)) => {
                    &&& voice_of(bytes@) matches Ok((view, len))
                    &&& data@ == view
                    &&& data@.wf()
                    &&& len <= bytes@.len()
                    &&& rest@ == bytes@.skip(len as int)
                },
                Err(e) => voice_of(bytes@) == Err::<
                    (VoiceMessageDataView, nat),
                    VoiceMessageDataError,
                >(e),
            },
    {
        if bytes.len() == 0 {
            return Err(VoiceMessageDataError::NotEnoughBytes);
        }
        let kind = match VoiceMessage::try_from(bytes[0] - bytes[0] % 0x10) {
            Ok(kind) => kind,
            Err(_) => {
                return Err(VoiceMessageDataError::MessageType);
            },
        };
        let note_number = VoiceMessageDataError::NoteNumber(U7Error::Overflow);
        let velocity = VoiceMessageDataError::Velocity(U7Error::Overflow);
        let pressure = VoiceMessageDataError::Pressure(U7Error::Overflow);
        let program_number = VoiceMessageDataError::ProgramNumber(U7Error::Overflow);
        let pitch_bend = VoiceMessageDataError::PitchBend(U7Error::Overflow);
        let (data, len): (VoiceMessageData, usize) = match kind {
            VoiceMessage::NoteOff => (
                VoiceMessageData::NoteOff {
                    note_number: data_byte_at(bytes, 1, note_number)?,
                    velocity: data_byte_at(bytes, 2, velocity)?,
                },
                3,
            ),
            VoiceMessage::NoteOn => (
                VoiceMessageData::NoteOn {
                    note_number: data_byte_at(bytes, 1, note_number)?,
                    velocity: data_byte_at(bytes, 2, velocity)?,
                },
                3,
            ),
            VoiceMessage::PolyKeyPressure => (
                VoiceMessageData::PolyKeyPressure {
                    note_number: data_byte_at(bytes, 1, note_number)?,
                    pressure: data_byte_at(bytes, 2, pressure)?,
                },
                3,
            ),
            VoiceMessage::ControlChange => (VoiceMessageData::ControlChange, 1),
            VoiceMessage::ProgramChange => (
                VoiceMessageData::ProgramChange {
                    program_number: data_byte_at(bytes, 1, program_number)?,
                },
                2,
            ),
            VoiceMessage::ChannelPressure => (
                VoiceMessageData::ChannelPressure { pressure: data_byte_at(bytes, 1, pressure)? },
                2,
            ),
            VoiceMessage::PitchBend => (
                VoiceMessageData::PitchBend {
                    change: [
                        data_byte_at(bytes, 1, pitch_bend)?,
                        data_byte_at(bytes, 2, pitch_bend)?,
                    ],
                },
                3,
            ),
        };
        Ok((data, vstd::slice::slice_subrange(bytes, len, bytes.len())))
    }
}

/// A channel message: a voice message on a channel, or a mode message.
#[derive(Debug, Clone, Copy, PartialEq, Eq)]
pub enum ChannelMessage {
    Voice { channel: Channel, data: VoiceMessageData },
    Mode(ModeMessage),
}

/// A channel message with its bytes as plain integers.
pub enum ChannelMessageView {
    Voice { channel: u8, data: VoiceMessageDataView },
    Mode(ModeMessage),
}

impl ChannelMessageView {
    pub open spec fn wf(self) -> bool {
        match self {
            ChannelMessageView::Voice { channel, data } => channel < CHANNELS && data.wf(),
            ChannelMessageView::Mode(_) => true,
        }
    }
}

impl View for ChannelMessage {
    type V = ChannelMessageView;

    open spec fn view(&self) -> ChannelMessageView {
        match *self {
            ChannelMessage::Voice { channel, data } => ChannelMessageView::Voice {
                channel: channel@,
                data: data@,
            },
            ChannelMessage::Mode(message) => ChannelMessageView::Mode(message),
        }
    }
}

/// A channel message as it stands in a file. A mode message has no channel
/// of its own and is written on channel 0.
pub open spec fn channel_bytes(message: ChannelMessageView) -> Seq<u8> {
    match message {
        ChannelMessageView::Voice { channel, data } => voice_bytes(channel, data),
        ChannelMessageView::Mode(mode) => seq![VoiceMessage::ControlChange.code(), mode.code()],
    }
}

/// Whether the bytes open with a mode message: the status byte of a control
/// change, then a data byte from 120 on.
pub open spec fn opens_with_mode(bytes: Seq<u8>) -> bool {
    &&& bytes.len() >= 2
    &&& high_nibble(bytes[0]) == VoiceMessage::ControlChange.code()
    &&& bytes[1] >= FIRST_MODE_CODE
}

impl ChannelMessage {
    /// The bytes of this message as they stand in a file.
    pub fn to_bytes(&self) -> (bytes: Vec<u8>)
        ensures
            bytes@ == channel_bytes(self@),
            self@.wf(),
    {
        match self {
            ChannelMessage::Mode(mode) => {
                let pair = mode.to_be_bytes(0);
                let mut bytes: Vec<u8> = Vec::with_capacity(2);
                bytes.push(pair[0]);
                bytes.push(pair[1]);
                assert(bytes@ =~= channel_bytes(self@));
                bytes
            },
            ChannelMessage::Voice { channel, data } => data.to_be_bytes(channel),
        }
    }
}

/// The status byte of a voice message splits back into its kind and its
/// channel.
pub proof fn lemma_status_splits(kind: VoiceMessage, channel: u8)
    requires
        channel < CHANNELS,
    ensures
        high_nibble((kind.code() + channel) as u8) == kind.code(),
        low_nibble((kind.code() + channel) as u8) == channel,
        VoiceMessage::of_code(kind.code()) == Some(kind),
{
}

/// Reading the bytes of a well-formed voice message, with anything after
/// them, gives its data back and stops where its bytes end.
pub proof fn lemma_voice_round_trip(channel: u8, data: VoiceMessageDataView, rest: Seq<u8>)
    requires
        channel < CHANNELS,
        data.wf(),
    ensures
        voice_bytes(channel, data).len() == 1 + data.data().len(),
        (voice_bytes(channel, data) + rest)[0] == data.kind().code() + channel,
        voice_of(voice_bytes(channel, data) + rest) == Ok::<
            (VoiceMessageDataView, nat),
            VoiceMessageDataError,
        >((data, voice_bytes(channel, data).len())),
{
    let bytes = voice_bytes(channel, data) + rest;
    let fields = data.data();
    lemma_status_splits(data.kind(), channel);
    assert(bytes[0] == data.kind().code() + channel);
    if fields.len() >= 1 {
        assert(bytes[1] == fields[0]);
        assert(fields[0] < U7_LIMIT);
    }
    if fields.len() >= 2 {
        assert(bytes[2] == fields[1]);
        assert(fields[1] < U7_LIMIT);
    }
    match data {
        VoiceMessageDataView::NoteOff { note_number, velocity } => {
            assert(fields[0] == note_number && fields[1] == velocity);
        },
        VoiceMessageDataView::NoteOn { note_number, velocity } => {
            assert(fields[0] == note_number && fields[1] == velocity);
        },
        VoiceMessageDataView::PolyKeyPressure { note_number, pressure } => {
            assert(fields[0] == note_number && fields[1] == pressure);
        },
        VoiceMessageDataView::ControlChange => {},
        VoiceMessageDataView::ProgramChange { program_number } => {
            assert(fields[0] == program_number);
        },
        VoiceMessageDataView::ChannelPressure { pressure } => {
            assert(fields[0] == pressure);
        },
        VoiceMessageDataView::PitchBend { first, second } => {
            assert(fields[0] == first && fields[1] == second);
        },
    }
}

/// What is read as a voice message is well formed and lies within the
/// buffer.
pub proof fn lemma_voice_reads_within(bytes: Seq<u8>)
    ensures
        voice_of(bytes) matches Ok((data, len)) ==> data.wf() && 1 <= len <= bytes.len() && len
            == 1 + data.data().len() && VoiceMessage::of_code(high_nibble(bytes[0])) == Some(
            data.kind(),
        ),
{
}

} // verus!
