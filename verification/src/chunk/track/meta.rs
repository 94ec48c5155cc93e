//! Meta messages: what a track says about itself rather than to an
//! instrument. Each follows the status byte 0xFF as a type byte, a length
//! and a payload.

use vstd::prelude::*;
use vstd::utf8::*;
use crate::chunk::track::primitives::{Channel, ChannelError, Tempo, CHANNELS, TEMPO_LIMIT};
use crate::endian::{
    be16, be16_bytes, be24, be24_bytes, lemma_be16_round_trip, signed, to_signed, u16_from_be,
    u16_to_be,
};
use crate::vlq::{
    decoded_len, decoded_value, encoded_len, encoding, lemma_decoded_value_bound,
    lemma_round_trip, Vlq, MAX_REPRESENTABLE,
};

verus! {

/// Whether a key is major or minor.
#[derive(Debug, PartialEq, Eq, Clone, Copy)]
pub enum KeyType {
    Major,
    Minor,
}

/// Why a byte stands for no key type.
#[derive(Debug, PartialEq, Eq, Clone, Copy)]
pub enum KeyTypeError {
    InvalidValue,
}

impl KeyType {
    /// The byte that stands for this key type in a file.
    pub open spec fn code(self) -> u8 {
        match self {
            KeyType::Major => 0,
            KeyType::Minor => 1,
        }
    }

    /// The key type that `code` stands for, if it stands for one.
    pub open spec fn of_code(code: u8) -> Option<KeyType> {
        if code == KeyType::Major.code() {
            Some(KeyType::Major)
        } else if code == KeyType::Minor.code() {
            Some(KeyType::Minor)
        } else {
            None
        }
    }

    /// The byte that stands for this value in a file.
    pub fn to_u8(self) -> (code: u8)
        ensures
            code == self.code(),
    {
        match self {
            KeyType::Major => 0,
            KeyType::Minor => 1,
        }
    }

    /// Codes and key types match one for one.
    pub proof fn lemma_code_is_inverse(self, code: u8)
        ensures
            KeyType::of_code(self.code()) == Some(self),
            KeyType::of_code(code) == Some(self) <==> code == self.code(),
    {
    }
}

impl TryFrom<u8> for KeyType {
    type Error = KeyTypeError;

    /// Reads the key type that `value` stands for.
    fn try_from(value: u8) -> (r: Result<KeyType, KeyTypeError>)
        ensures
            match r {
                Ok(key_type) => KeyType::of_code(value) == Some(key_type),
                Err(e) => KeyType::of_code(value) is None && e == KeyTypeError::InvalidValue,
            },
    {
        if value == KeyType::Major.to_u8() {
            Ok(KeyType::Major)
        } else if value == KeyType::Minor.to_u8() {
            Ok(KeyType::Minor)
        } else {
            Err(KeyTypeError::InvalidValue)
        }
    }
}

impl vstd::std_specs::convert::TryFromSpecImpl<u8> for KeyType {
    open spec fn obeys_try_from_spec() -> bool {
        true
    }

    open spec fn try_from_spec(value: u8) -> Result<KeyType, KeyTypeError> {
        match KeyType::of_code(value) {
            Some(found) => Ok(found),
            None => Err(KeyTypeError::InvalidValue),
        }
    }
}

/// The number of sharps or flats in a key signature: flats count below
/// zero, sharps above.
#[derive(Debug, PartialEq, Eq, Clone, Copy)]
pub enum SharpsOrFlats {
    SevenFlats,
    SixFlats,
    FiveFlats,
    FourFlats,
    ThreeFlats,
    TwoFlats,
    OneFlat,
    NoSharpsOrFlats,
    OneSharp,
    TwoSharps,
    ThreeSharps,
    FourSharps,
    FiveSharps,
    SixSharps,
    SevenSharps,
}

/// Why an integer stands for no count of sharps or flats.
#[derive(Debug, PartialEq, Eq, Clone, Copy)]
pub enum SharpsOrFlatsError {
    InvalidValue,
}

impl SharpsOrFlats {
    /// The signed integer that stands for this count in a file.
    pub open spec fn code(self) -> int {
        match self {
            SharpsOrFlats::SevenFlats => -7,
            SharpsOrFlats::SixFlats => -6,
            SharpsOrFlats::FiveFlats => -5,
            SharpsOrFlats::FourFlats => -4,
            SharpsOrFlats::ThreeFlats => -3,
            SharpsOrFlats::TwoFlats => -2,
            SharpsOrFlats::OneFlat => -1,
            SharpsOrFlats::NoSharpsOrFlats => 0,
            SharpsOrFlats::OneSharp => 1,
            SharpsOrFlats::TwoSharps => 2,
            SharpsOrFlats::ThreeSharps => 3,
            SharpsOrFlats::FourSharps => 4,
            SharpsOrFlats::FiveSharps => 5,
            SharpsOrFlats::SixSharps => 6,
            SharpsOrFlats::SevenSharps => 7,
        }
    }

    /// The count that `code` stands for, if it stands for one.
    pub open spec fn of_code(code: int) -> Option<SharpsOrFlats> {
        if code == SharpsOrFlats::SevenFlats.code() {
            Some(SharpsOrFlats::SevenFlats)
        } else if code == SharpsOrFlats::SixFlats.code() {
            Some(SharpsOrFlats::SixFlats)
        } else if code == SharpsOrFlats::FiveFlats.code() {
            Some(SharpsOrFlats::FiveFlats)
        } else if code == SharpsOrFlats::FourFlats.code() {
            Some(SharpsOrFlats::FourFlats)
        } else if code == SharpsOrFlats::ThreeFlats.code() {
            Some(SharpsOrFlats::ThreeFlats)
        } else if code == SharpsOrFlats::TwoFlats.code() {
            Some(SharpsOrFlats::TwoFlats)
        } else if code == SharpsOrFlats::OneFlat.code() {
            Some(SharpsOrFlats::OneFlat)
        } else if code == SharpsOrFlats::NoSharpsOrFlats.code() {
            Some(SharpsOrFlats::NoSharpsOrFlats)
        } else if code == SharpsOrFlats::OneSharp.code() {
            Some(SharpsOrFlats::OneSharp)
        } else if code == SharpsOrFlats::TwoSharps.code() {
            Some(SharpsOrFlats::TwoSharps)
        } else if code == SharpsOrFlats::ThreeSharps.code() {
            Some(SharpsOrFlats::ThreeSharps)
        } else if code == SharpsOrFlats::FourSharps.code() {
            Some(SharpsOrFlats::FourSharps)
        } else if code == SharpsOrFlats::FiveSharps.code() {
            Some(SharpsOrFlats::FiveSharps)
        } else if code == SharpsOrFlats::SixSharps.code() {
            Some(SharpsOrFlats::SixSharps)
        } else if code == SharpsOrFlats::SevenSharps.code() {
            Some(SharpsOrFlats::SevenSharps)
        } else {
            None
        }
    }

    /// The byte that holds this count in a file: its code in two's
    /// complement.
    pub open spec fn byte(self) -> u8 {
        if self.code() < 0 {
            (0x100 + self.code()) as u8
        } else {
            self.code() as u8
        }
    }

    /// The signed integer that stands for this count in a file.
    pub fn to_i8(self) -> (code: i8)
        ensures
            code == self.code(),
    {
        match self {
            SharpsOrFlats::SevenFlats => -7,
            SharpsOrFlats::SixFlats => -6,
            SharpsOrFlats::FiveFlats => -5,
            SharpsOrFlats::FourFlats => -4,
            SharpsOrFlats::ThreeFlats => -3,
            SharpsOrFlats::TwoFlats => -2,
            SharpsOrFlats::OneFlat => -1,
            SharpsOrFlats::NoSharpsOrFlats => 0,
            SharpsOrFlats::OneSharp => 1,
            SharpsOrFlats::TwoSharps => 2,
            SharpsOrFlats::ThreeSharps => 3,
            SharpsOrFlats::FourSharps => 4,
            SharpsOrFlats::FiveSharps => 5,
            SharpsOrFlats::SixSharps => 6,
            SharpsOrFlats::SevenSharps => 7,
        }
    }

    /// The byte that stands for this value in a file.
    pub fn to_u8(self) -> (byte: u8)
        ensures
            byte == self.byte(),
    {
        let code = self.to_i8();
        if code < 0 {
            (0x100 + code as i16) as u8
        } else {
            code as u8
        }
    }

    /// Codes and counts match one for one, also through the byte that
    /// holds the code.
    pub proof fn lemma_code_is_inverse(self, code: int)
        ensures
            SharpsOrFlats::of_code(self.code()) == Some(self),
            SharpsOrFlats::of_code(code) == Some(self) <==> code == self.code(),
            SharpsOrFlats::of_code(signed(self.byte())) == Some(self),
    {
    }
}

impl TryFrom<i8> for SharpsOrFlats {
    type Error = SharpsOrFlatsError;

    /// Reads the count of sharps or flats that `value` stands for.
    fn try_from(value: i8) -> (r: Result<SharpsOrFlats, SharpsOrFlatsError>)
        ensures
            match r {
                Ok(count) => SharpsOrFlats::of_code(value as int) == Some(count),
                Err(e) => SharpsOrFlats::of_code(value as int) is None && e
                    == SharpsOrFlatsError::InvalidValue,
            },
    {
        if value == SharpsOrFlats::SevenFlats.to_i8() {
            Ok(SharpsOrFlats::SevenFlats)
        } else if value == SharpsOrFlats::SixFlats.to_i8() {
            Ok(SharpsOrFlats::SixFlats)
        } else if value == SharpsOrFlats::FiveFlats.to_i8() {
            Ok(SharpsOrFlats::FiveFlats)
        } else if value == SharpsOrFlats::FourFlats.to_i8() {
            Ok(SharpsOrFlats::FourFlats)
        } else if value == SharpsOrFlats::ThreeFlats.to_i8() {
            Ok(SharpsOrFlats::ThreeFlats)
        } else if value == SharpsOrFlats::TwoFlats.to_i8() {
            Ok(SharpsOrFlats::TwoFlats)
        } else if value == SharpsOrFlats::OneFlat.to_i8() {
            Ok(SharpsOrFlats::OneFlat)
        } else if value == SharpsOrFlats::NoSharpsOrFlats.to_i8() {
            Ok(SharpsOrFlats::NoSharpsOrFlats)
        } else if value == SharpsOrFlats::OneSharp.to_i8() {
            Ok(SharpsOrFlats::OneSharp)
        } else if value == SharpsOrFlats::TwoSharps.to_i8() {
            Ok(SharpsOrFlats::TwoSharps)
        } else if value == SharpsOrFlats::ThreeSharps.to_i8() {
            Ok(SharpsOrFlats::ThreeSharps)
        } else if value == SharpsOrFlats::FourSharps.to_i8() {
            Ok(SharpsOrFlats::FourSharps)
        } else if value == SharpsOrFlats::FiveSharps.to_i8() {
            Ok(SharpsOrFlats::FiveSharps)
        } else if value == SharpsOrFlats::SixSharps.to_i8() {
            Ok(SharpsOrFlats::SixSharps)
        } else if value == SharpsOrFlats::SevenSharps.to_i8() {
            Ok(SharpsOrFlats::SevenSharps)
        } else {
            Err(SharpsOrFlatsError::InvalidValue)
        }
    }
}

impl vstd::std_specs::convert::TryFromSpecImpl<i8> for SharpsOrFlats {
    open spec fn obeys_try_from_spec() -> bool {
        true
    }

    open spec fn try_from_spec(value: i8) -> Result<SharpsOrFlats, SharpsOrFlatsError> {
        match SharpsOrFlats::of_code(value as int) {
            Some(found) => Ok(found),
            None => Err(SharpsOrFlatsError::InvalidValue),
        }
    }
}

/// The error of `String::from_utf8`. Nothing is read from it: a failed
/// conversion is reported as `MetaMessageError::TextIsNotUtf8`.
#[verifier::external_type_specification]
#[verifier::external_body]
pub struct ExFromUtf8Error(std::string::FromUtf8Error);

/// `String::from_utf8` succeeds exactly on the byte vectors that are valid
/// UTF-8, and the string it then makes has those very bytes.
pub assume_specification[ String::from_utf8 ](vec: Vec<u8>) -> (r: Result<
    String,
    std::string::FromUtf8Error,
>)
    ensures
        r is Ok <==> valid_utf8(vec@),
        r matches Ok(s) ==> encode_utf8(s@) == vec@,
;

/// A meta message.
#[derive(Debug, Clone, PartialEq, Eq)]
pub enum MetaMessage {
    SequenceNumber(u16),
    TextEvent(String),
    CopyrightNotice(String),
    SequenceName(String),
    InstrumentName(String),
    Lyric(String),
    Marker(String),
    CuePoint(String),
    ChannelPrefix(Channel),
    EndOfTrack,
    SetTempo(Tempo),
    SMPTEOffset { hour: u8, minute: u8, second: u8, frame: u8, hundredths_of_a_frame: u8 },
    TimeSignature {
        numerator: u8,
        /// A negative power of two: 3 stands for eighth notes.
        denominator: u8,
        /// The number of MIDI clocks in a metronome click.
        cc: u8,
        /// The number of notated 32nd notes in 24 MIDI clocks.
        bb: u8,
    },
    KeySignature { sharps_or_flats: SharpsOrFlats, key_type: KeyType },
    SequencerSpecificEvent(Vec<u8>),
}

/// A meta message with its text as characters and its bytes as a sequence.
pub enum MetaMessageView {
    SequenceNumber(u16),
    TextEvent(Seq<char>),
    CopyrightNotice(Seq<char>),
    SequenceName(Seq<char>),
    InstrumentName(Seq<char>),
    Lyric(Seq<char>),
    Marker(Seq<char>),
    CuePoint(Seq<char>),
    ChannelPrefix(u8),
    EndOfTrack,
    SetTempo(u32),
    SMPTEOffset { hour: u8, minute: u8, second: u8, frame: u8, hundredths_of_a_frame: u8 },
    TimeSignature { numerator: u8, denominator: u8, cc: u8, bb: u8 },
    KeySignature { sharps_or_flats: SharpsOrFlats, key_type: KeyType },
    SequencerSpecificEvent(Seq<u8>),
}

/// Why no meta message can be read.
#[derive(Debug, PartialEq, Eq, Clone, Copy)]
pub enum MetaMessageError {
    NotEnoughBytes,
    /// The type byte and the byte after it, where they name no message.
    Unrecognized([u8; 2]),
    TextIsNotUtf8,
    ChannelPrefix(ChannelError),
    KeyType(KeyTypeError),
    SharpsOrFlats(SharpsOrFlatsError),
}

impl View for MetaMessage {
    type V = MetaMessageView;

    open spec fn view(&self) -> MetaMessageView {
        match *self {
            MetaMessage::SequenceNumber(n) => MetaMessageView::SequenceNumber(n),
            MetaMessage::TextEvent(text) => MetaMessageView::TextEvent(text@),
            MetaMessage::CopyrightNotice(text) => MetaMessageView::CopyrightNotice(text@),
            MetaMessage::SequenceName(text) => MetaMessageView::SequenceName(text@),
            MetaMessage::InstrumentName(text) => MetaMessageView::InstrumentName(text@),
            MetaMessage::Lyric(text) => MetaMessageView::Lyric(text@),
            MetaMessage::Marker(text) => MetaMessageView::Marker(text@),
            MetaMessage::CuePoint(text) => MetaMessageView::CuePoint(text@),
            MetaMessage::ChannelPrefix(channel) => MetaMessageView::ChannelPrefix(channel@),
            MetaMessage::EndOfTrack => MetaMessageView::EndOfTrack,
            MetaMessage::SetTempo(tempo) => MetaMessageView::SetTempo(tempo@),
            MetaMessage::SMPTEOffset {
                hour,
                minute,
                second,
                frame,
                hundredths_of_a_frame,
            } => MetaMessageView::SMPTEOffset {
                hour,
                minute,
                second,
                frame,
                hundredths_of_a_frame,
            },
            MetaMessage::TimeSignature {
                numerator,
                denominator,
                cc,
                bb,
            } => MetaMessageView::TimeSignature { numerator, denominator, cc, bb },
            MetaMessage::KeySignature {
                sharps_or_flats,
                key_type,
            } => MetaMessageView::KeySignature { sharps_or_flats, key_type },
            MetaMessage::SequencerSpecificEvent(bytes) => MetaMessageView::SequencerSpecificEvent(
                bytes@,
            ),
        }
    }
}

/// The type byte of the first kind of text message.
pub const FIRST_TEXT_TYPE: u8 = 0x01;

/// The type byte of the last kind of text message.
pub const LAST_TEXT_TYPE: u8 = 0x07;

/// The type byte of a sequencer-specific message.
pub const SEQUENCER_SPECIFIC_TYPE: u8 = 0x7F;

/// The text message of the kind that `type_byte` names, holding `text`.
pub open spec fn text_message(type_byte: u8, text: Seq<char>) -> MetaMessageView
    recommends
        FIRST_TEXT_TYPE <= type_byte <= LAST_TEXT_TYPE,
{
    if type_byte == 0x01 {
        MetaMessageView::TextEvent(text)
    } else if type_byte == 0x02 {
        MetaMessageView::CopyrightNotice(text)
    } else if type_byte == 0x03 {
        MetaMessageView::SequenceName(text)
    } else if type_byte == 0x04 {
        MetaMessageView::InstrumentName(text)
    } else if type_byte == 0x05 {
        MetaMessageView::Lyric(text)
    } else if type_byte == 0x06 {
        MetaMessageView::Marker(text)
    } else {
        MetaMessageView::CuePoint(text)
    }
}

/// A payload of any length behind its type byte: the type byte, the
/// payload's length as a variable-length quantity, the payload.
pub open spec fn variable_bytes(type_byte: u8, payload: Seq<u8>) -> Seq<u8>
    recommends
        payload.len() <= MAX_REPRESENTABLE,
{
    seq![type_byte] + encoding(payload.len()) + payload
}

/// Where the payload stands in `bytes`, whose first byte is a type or
/// status byte followed by the payload's length as a variable-length
/// quantity: the index of its first byte and the index one past its last.
/// `None` when the buffer ends before the payload does.
pub open spec fn variable_span(bytes: Seq<u8>) -> Option<(int, int)> {
    if bytes.len() == 0 {
        None
    } else {
        match decoded_len(bytes.skip(1)) {
            None => None,
            Some(len) => {
                let start: int = 1 + len as int;
                let end: int = start + decoded_value(bytes.skip(1), len) as int;
                if bytes.len() < end {
                    None
                } else {
                    Some((start, end))
                }
            },
        }
    }
}

impl MetaMessageView {
    /// A message that a file can hold: a text or payload whose length fits
    /// a variable-length quantity, a channel below 16, a tempo of 24 bits.
    pub open spec fn wf(self) -> bool {
        match self {
            MetaMessageView::TextEvent(text) => encode_utf8(text).len() <= MAX_REPRESENTABLE,
            MetaMessageView::CopyrightNotice(text) => encode_utf8(text).len() <= MAX_REPRESENTABLE,
            MetaMessageView::SequenceName(text) => encode_utf8(text).len() <= MAX_REPRESENTABLE,
            MetaMessageView::InstrumentName(text) => encode_utf8(text).len() <= MAX_REPRESENTABLE,
            MetaMessageView::Lyric(text) => encode_utf8(text).len() <= MAX_REPRESENTABLE,
            MetaMessageView::Marker(text) => encode_utf8(text).len() <= MAX_REPRESENTABLE,
            MetaMessageView::CuePoint(text) => encode_utf8(text).len() <= MAX_REPRESENTABLE,
            MetaMessageView::ChannelPrefix(channel) => channel < CHANNELS,
            MetaMessageView::SetTempo(tempo) => tempo < TEMPO_LIMIT,
            MetaMessageView::SequencerSpecificEvent(bytes) => bytes.len() <= MAX_REPRESENTABLE,
            _ => true,
        }
    }
}

/// A meta message as it stands in a file, behind the status byte 0xFF.
pub open spec fn meta_bytes(message: MetaMessageView) -> Seq<u8> {
    match message {
        MetaMessageView::SequenceNumber(n) => seq![0x00u8, 0x02u8] + be16_bytes(n),
        MetaMessageView::TextEvent(text) => variable_bytes(0x01, encode_utf8(text)),
        MetaMessageView::CopyrightNotice(text) => variable_bytes(0x02, encode_utf8(text)),
        MetaMessageView::SequenceName(text) => variable_bytes(0x03, encode_utf8(text)),
        MetaMessageView::InstrumentName(text) => variable_bytes(0x04, encode_utf8(text)),
        MetaMessageView::Lyric(text) => variable_bytes(0x05, encode_utf8(text)),
        MetaMessageView::Marker(text) => variable_bytes(0x06, encode_utf8(text)),
        MetaMessageView::CuePoint(text) => variable_bytes(0x07, encode_utf8(text)),
        MetaMessageView::ChannelPrefix(channel) => seq![0x20u8, 0x01u8, channel],
        MetaMessageView::EndOfTrack => seq![0x2Fu8, 0x00u8],
        MetaMessageView::SetTempo(tempo) => seq![0x51u8, 0x03u8] + be24_bytes(tempo),
        MetaMessageView::SMPTEOffset {
            hour,
            minute,
            second,
            frame,
            hundredths_of_a_frame,
        } => seq![0x54u8, 0x05u8, hour, minute, second, frame, hundredths_of_a_frame],
        MetaMessageView::TimeSignature { numerator, denominator, cc, bb } => seq![
            0x58u8,
            0x04u8,
            numerator,
            denominator,
            cc,
            bb,
        ],
        MetaMessageView::KeySignature { sharps_or_flats, key_type } => seq![
            0x59u8,
            0x02u8,
            sharps_or_flats.byte(),
            key_type.code(),
        ],
        MetaMessageView::SequencerSpecificEvent(bytes) => variable_bytes(
            SEQUENCER_SPECIFIC_TYPE,
            bytes,
        ),
    }
}

/// The message of fixed size that `bytes` opens with, given that its type
/// byte and length byte are those of such a message and that `bytes` holds
/// its `len` bytes.
pub open spec fn fixed_of(bytes: Seq<u8>) -> Result<(MetaMessageView, nat), MetaMessageError>
    recommends
        bytes.len() >= 2,
        fixed_len(bytes[0], bytes[1]) is Some,
        bytes.len() >= fixed_len(bytes[0], bytes[1])->Some_0,
{
    if bytes[0] == 0x00 {
        Ok((MetaMessageView::SequenceNumber(be16(bytes[2], bytes[3])), 4))
    } else if bytes[0] == 0x20 {
        if bytes[2] < CHANNELS {
            Ok((MetaMessageView::ChannelPrefix(bytes[2]), 3))
        } else {
            Err(MetaMessageError::ChannelPrefix(ChannelError::TooBig))
        }
    } else if bytes[0] == 0x2F {
        Ok((MetaMessageView::EndOfTrack, 2))
    } else if bytes[0] == 0x51 {
        Ok((MetaMessageView::SetTempo(be24(bytes[2], bytes[3], bytes[4])), 5))
    } else if bytes[0] == 0x54 {
        Ok(
            (
                MetaMessageView::SMPTEOffset {
                    hour: bytes[2],
                    minute: bytes[3],
                    second: bytes[4],
                    frame: bytes[5],
                    hundredths_of_a_frame: bytes[6],
                },
                7,
            ),
        )
    } else if bytes[0] == 0x58 {
        Ok(
            (
                MetaMessageView::TimeSignature {
                    numerator: bytes[2],
                    denominator: bytes[3],
                    cc: bytes[4],
                    bb: bytes[5],
                },
                6,
            ),
        )
    } else {
        match SharpsOrFlats::of_code(signed(bytes[2])) {
            None => Err(MetaMessageError::SharpsOrFlats(SharpsOrFlatsError::InvalidValue)),
            Some(sharps_or_flats) => match KeyType::of_code(bytes[3]) {
                None => Err(MetaMessageError::KeyType(KeyTypeError::InvalidValue)),
                Some(key_type) => Ok(
                    (MetaMessageView::KeySignature { sharps_or_flats, key_type }, 4),
                ),
            },
        }
    }
}

/// The whole length, type and length bytes included, of the message of
/// fixed size that the two bytes announce, if they announce one: the
/// second byte must be the literal length that goes with the type.
pub open spec fn fixed_len(type_byte: u8, length_byte: u8) -> Option<nat> {
    if type_byte == 0x00 && length_byte == 0x02 {
        Some(4)
    } else if type_byte == 0x20 && length_byte == 0x01 {
        Some(3)
    } else if type_byte == 0x2F && length_byte == 0x00 {
        Some(2)
    } else if type_byte == 0x51 && length_byte == 0x03 {
        Some(5)
    } else if type_byte == 0x54 && length_byte == 0x05 {
        Some(7)
    } else if type_byte == 0x58 && length_byte == 0x04 {
        Some(6)
    } else if type_byte == 0x59 && length_byte == 0x02 {
        Some(4)
    } else {
        None
    }
}

/// Whether `type_byte` names a message whose payload can have any length.
pub open spec fn is_variable(type_byte: u8) -> bool {
    FIRST_TEXT_TYPE <= type_byte <= LAST_TEXT_TYPE || type_byte == SEQUENCER_SPECIFIC_TYPE
}

/// What reading a meta message from the front of `bytes` gives, where
/// `bytes` starts behind the status byte: the message and the number of
/// bytes read.
pub open spec fn meta_of(bytes: Seq<u8>) -> Result<(MetaMessageView, nat), MetaMessageError> {
    if bytes.len() < 2 {
        Err(MetaMessageError::NotEnoughBytes)
    } else if is_variable(bytes[0]) {
        match variable_span(bytes) {
            None => Err(MetaMessageError::NotEnoughBytes),
            Some((start, end)) => {
                let payload = bytes.subrange(start, end);
                if bytes[0] == SEQUENCER_SPECIFIC_TYPE {
                    Ok((MetaMessageView::SequencerSpecificEvent(payload), end as nat))
                } else if valid_utf8(payload) {
                    Ok((text_message(bytes[0], decode_utf8(payload)), end as nat))
                } else {
                    Err(MetaMessageError::TextIsNotUtf8)
                }
            },
        }
    } else {
        match fixed_len(bytes[0], bytes[1]) {
            None => Err(MetaMessageError::Unrecognized([bytes[0], bytes[1]])),
            Some(len) => if bytes.len() < len {
                Err(MetaMessageError::NotEnoughBytes)
            } else {
                fixed_of(bytes)
            },
        }
    }
}

/// Reads the length and the payload that follow the first byte of `bytes`,
/// and hands back the payload and what follows it.
pub fn read_variable(bytes: &[u8]) -> (r: Option<(&[u8], &[u8])>)
    ensures
        match r {
            Some((payload, rest)) => {
                &&& variable_span(bytes@) matches Some((start, end))
                &&& payload@ == bytes@.subrange(start, end)
                &&& rest@ == bytes@.skip(end)
                &&& payload@.len() <= MAX_REPRESENTABLE
                &&& 1 < end <= bytes@.len()
            },
            None => variable_span(bytes@) is None,
        },
{
    if bytes.len() == 0 {
        return None;
    }
    let tail = vstd::slice::slice_subrange(bytes, 1, bytes.len());
    let (length, after) = match Vlq::parse(tail) {
        Ok(parsed) => parsed,
        Err(_) => {
            return None;
        },
    };
    let n = length.get() as usize;
    if after.len() < n {
        return None;
    }
    let payload = vstd::slice::slice_subrange(after, 0, n);
    let rest = vstd::slice::slice_subrange(after, n, after.len());
    proof {
        let len = decoded_len(bytes@.skip(1))->Some_0;
        assert(tail@ =~= bytes@.skip(1));
        assert(payload@ =~= bytes@.subrange(1 + len as int, 1 + len + n as int));
        assert(rest@ =~= bytes@.skip(1 + len + n as int));
    }
    Some((payload, rest))
}

/// Writes `payload` behind `type_byte` and its own length.
pub(crate) fn write_variable(type_byte: u8, payload: &[u8]) -> (bytes: Vec<u8>)
    requires
        payload@.len() <= MAX_REPRESENTABLE,
    ensures
        bytes@ == variable_bytes(type_byte, payload@),
{
    let length = Vlq::new(payload.len() as u32);
    let mut bytes: Vec<u8> = Vec::new();
    bytes.push(type_byte);
    let length_bytes = length.to_bytes();
    bytes.extend_from_slice(length_bytes.as_slice());
    bytes.extend_from_slice(payload);
    assert(bytes@ =~= variable_bytes(type_byte, payload@));
    bytes
}

impl MetaMessage {
    /// Whether this message can be written: its text or payload, if it
    /// has one, is short enough for its length to fit a variable-length
    /// quantity.
    pub open spec fn wf(&self) -> bool {
        match *self {
            MetaMessage::TextEvent(text) => encode_utf8(text@).len() <= MAX_REPRESENTABLE,
            MetaMessage::CopyrightNotice(text) => encode_utf8(text@).len() <= MAX_REPRESENTABLE,
            MetaMessage::SequenceName(text) => encode_utf8(text@).len() <= MAX_REPRESENTABLE,
            MetaMessage::InstrumentName(text) => encode_utf8(text@).len() <= MAX_REPRESENTABLE,
            MetaMessage::Lyric(text) => encode_utf8(text@).len() <= MAX_REPRESENTABLE,
            MetaMessage::Marker(text) => encode_utf8(text@).len() <= MAX_REPRESENTABLE,
            MetaMessage::CuePoint(text) => encode_utf8(text@).len() <= MAX_REPRESENTABLE,
            MetaMessage::SequencerSpecificEvent(bytes) => bytes@.len() <= MAX_REPRESENTABLE,
            _ => true,
        }
    }

    /// Tells whether this message can be written.
    pub fn is_wf(&self) -> (ok: bool)
        ensures
            ok == self.wf(),
    {
        match self {
            MetaMessage::TextEvent(text) => text.as_str().as_bytes().len() <= MAX_REPRESENTABLE as usize,
            MetaMessage::CopyrightNotice(text) => text.as_str().as_bytes().len() <= MAX_REPRESENTABLE as usize,
            MetaMessage::SequenceName(text) => text.as_str().as_bytes().len() <= MAX_REPRESENTABLE as usize,
            MetaMessage::InstrumentName(text) => text.as_str().as_bytes().len() <= MAX_REPRESENTABLE as usize,
            MetaMessage::Lyric(text) => text.as_str().as_bytes().len() <= MAX_REPRESENTABLE as usize,
            MetaMessage::Marker(text) => text.as_str().as_bytes().len() <= MAX_REPRESENTABLE as usize,
            MetaMessage::CuePoint(text) => text.as_str().as_bytes().len() <= MAX_REPRESENTABLE as usize,
            MetaMessage::SequencerSpecificEvent(bytes) => bytes.len() <= MAX_REPRESENTABLE as usize,
            _ => true,
        }
    }

    /// The bytes of this message as they stand in a file, behind the
    /// status byte.
    pub fn to_bytes(&self) -> (bytes: Vec<u8>)
        requires
            self.wf(),
        ensures
            bytes@ == meta_bytes(self@),
            self@.wf(),
    {
        match self {
            MetaMessage::SequenceNumber(n) => {
                let number = u16_to_be(*n);
                let bytes = vec![0x00u8, 0x02u8, number[0], number[1]];
                assert(bytes@ =~= meta_bytes(self@));
                bytes
            },
            MetaMessage::TextEvent(text) => write_variable(0x01, text.as_str().as_bytes()),
            MetaMessage::CopyrightNotice(text) => write_variable(0x02, text.as_str().as_bytes()),
            MetaMessage::SequenceName(text) => write_variable(0x03, text.as_str().as_bytes()),
            MetaMessage::InstrumentName(text) => write_variable(0x04, text.as_str().as_bytes()),
            MetaMessage::Lyric(text) => write_variable(0x05, text.as_str().as_bytes()),
            MetaMessage::Marker(text) => write_variable(0x06, text.as_str().as_bytes()),
            MetaMessage::CuePoint(text) => write_variable(0x07, text.as_str().as_bytes()),
            MetaMessage::ChannelPrefix(channel) => {
                let bytes = vec![0x20u8, 0x01u8, channel.get()];
                assert(bytes@ =~= meta_bytes(self@));
                bytes
            },
            MetaMessage::EndOfTrack => {
                let bytes = vec![0x2Fu8, 0x00u8];
                assert(bytes@ =~= meta_bytes(self@));
                bytes
            },
            MetaMessage::SetTempo(tempo) => {
                let t = tempo.to_be_bytes();
                let bytes = vec![0x51u8, 0x03u8, t[0], t[1], t[2]];
                assert(bytes@ =~= meta_bytes(self@));
                bytes
            },
            MetaMessage::SMPTEOffset { hour, minute, second, frame, hundredths_of_a_frame } => {
                let bytes = vec![
                    0x54u8,
                    0x05u8,
                    *hour,
                    *minute,
                    *second,
                    *frame,
                    *hundredths_of_a_frame,
                ];
                assert(bytes@ =~= meta_bytes(self@));
                bytes
            },
            MetaMessage::TimeSignature { numerator, denominator, cc, bb } => {
                let bytes = vec![0x58u8, 0x04u8, *numerator, *denominator, *cc, *bb];
                assert(bytes@ =~= meta_bytes(self@));
                bytes
            },
            MetaMessage::KeySignature { sharps_or_flats, key_type } => {
                let bytes = vec![0x59u8, 0x02u8, sharps_or_flats.to_u8(), key_type.to_u8()];
                assert(bytes@ =~= meta_bytes(self@));
                bytes
            },
            MetaMessage::SequencerSpecificEvent(payload) => write_variable(
                SEQUENCER_SPECIFIC_TYPE,
                payload.as_slice(),
            ),
        }
    }

    /// Reads one meta message from the front of `bytes`, which starts
    /// behind the status byte, and hands back what follows the message.
    pub fn parse(bytes: &[u8]) -> (r: Result<(MetaMessage, &[u8]), MetaMessageError>)
        ensures
            match r {
                Ok((message, rest)) => {
                    &&& meta_of(bytes@) matches Ok((view, len))
                    &&& message@ == view
                    &&& message@.wf()
                    &&& message.wf()
                    &&& 2 <= len <= bytes@.len()
                    &&& rest@ == bytes@.skip(len as int)
                },
                Err(e) => meta_of(bytes@) == Err::<(MetaMessageView, nat), MetaMessageError>(e),
            },
    {
        if bytes.len() < 2 {
            return Err(MetaMessageError::NotEnoughBytes);
        }
        let type_byte: u8 = bytes[0];
        let length_byte: u8 = bytes[1];
        if (FIRST_TEXT_TYPE <= type_byte && type_byte <= LAST_TEXT_TYPE) || type_byte
            == SEQUENCER_SPECIFIC_TYPE {
            let (payload, rest) = match read_variable(bytes) {
                Some(read) => read,
                None => {
                    return Err(MetaMessageError::NotEnoughBytes);
                },
            };
            let owned = vstd::slice::slice_to_vec(payload);
            if type_byte == SEQUENCER_SPECIFIC_TYPE {
                return Ok((MetaMessage::SequencerSpecificEvent(owned), rest));
            }
            let text = match String::from_utf8(owned) {
                Ok(text) => text,
                Err(e) => {
                    return Err(MetaMessageError::from(e));
                },
            };
            proof {
                encode_utf8_decode_utf8(text@);
            }
            let message = if type_byte == 0x01 {
                MetaMessage::TextEvent(text)
            } else if type_byte == 0x02 {
                MetaMessage::CopyrightNotice(text)
            } else if type_byte == 0x03 {
                MetaMessage::SequenceName(text)
            } else if type_byte == 0x04 {
                MetaMessage::InstrumentName(text)
            } else if type_byte == 0x05 {
                MetaMessage::Lyric(text)
            } else if type_byte == 0x06 {
                MetaMessage::Marker(text)
            } else {
                MetaMessage::CuePoint(text)
            };
            return Ok((message, rest));
        }
        let len: usize = if type_byte == 0x00 && length_byte == 0x02 {
            4
        } else if type_byte == 0x20 && length_byte == 0x01 {
            3
        } else if type_byte == 0x2F && length_byte == 0x00 {
            2
        } else if type_byte == 0x51 && length_byte == 0x03 {
            5
        } else if type_byte == 0x54 && length_byte == 0x05 {
            7
        } else if type_byte == 0x58 && length_byte == 0x04 {
            6
        } else if type_byte == 0x59 && length_byte == 0x02 {
            4
        } else {
            return Err(MetaMessageError::Unrecognized([type_byte, length_byte]));
        };
        if bytes.len() < len {
            return Err(MetaMessageError::NotEnoughBytes);
        }
        let message = if type_byte == 0x00 {
            MetaMessage::SequenceNumber(u16_from_be(bytes[2], bytes[3]))
        } else if type_byte == 0x20 {
            match Channel::try_from(bytes[2]) {
                Ok(channel) => MetaMessage::ChannelPrefix(channel),
                Err(e) => {
                    return Err(MetaMessageError::from(e));
                },
            }
        } else if type_byte == 0x2F {
            MetaMessage::EndOfTrack
        } else if type_byte == 0x51 {
            MetaMessage::SetTempo(Tempo::from_be_bytes([bytes[2], bytes[3], bytes[4]]))
        } else if type_byte == 0x54 {
            MetaMessage::SMPTEOffset {
                hour: bytes[2],
                minute: bytes[3],
                second: bytes[4],
                frame: bytes[5],
                hundredths_of_a_frame: bytes[6],
            }
        } else if type_byte == 0x58 {
            MetaMessage::TimeSignature {
                numerator: bytes[2],
                denominator: bytes[3],
                cc: bytes[4],
                bb: bytes[5],
            }
        } else {
            let sharps_or_flats = match SharpsOrFlats::try_from(to_signed(bytes[2])) {
                Ok(sharps_or_flats) => sharps_or_flats,
                Err(e) => {
                    return Err(MetaMessageError::from(e));
                },
            };
            let key_type = match KeyType::try_from(bytes[3]) {
                Ok(key_type) => key_type,
                Err(e) => {
                    return Err(MetaMessageError::from(e));
                },
            };
            MetaMessage::KeySignature { sharps_or_flats, key_type }
        };
        Ok((message, vstd::slice::slice_subrange(bytes, len, bytes.len())))
    }
}

/// Reading a payload written behind its type byte and length finds the
/// payload where it was put, whatever follows it.
pub proof fn lemma_variable_round_trip(type_byte: u8, payload: Seq<u8>, rest: Seq<u8>)
    requires
        payload.len() <= MAX_REPRESENTABLE,
    ensures
        variable_bytes(type_byte, payload).len() == 1 + encoded_len(payload.len()) + payload.len(),
        variable_span(variable_bytes(type_byte, payload) + rest) == Some(
            (
                1 + encoded_len(payload.len()) as int,
                variable_bytes(type_byte, payload).len() as int,
            ),
        ),
        (variable_bytes(type_byte, payload) + rest).subrange(
            1 + encoded_len(payload.len()) as int,
            variable_bytes(type_byte, payload).len() as int,
        ) == payload,
        (variable_bytes(type_byte, payload) + rest)[0] == type_byte,
        (variable_bytes(type_byte, payload) + rest).len() >= 2,
{
    let bytes = variable_bytes(type_byte, payload) + rest;
    let n = payload.len();
    lemma_round_trip(n, payload + rest);
    assert(bytes.skip(1) =~= encoding(n) + (payload + rest));
    assert(bytes.subrange(1 + encoded_len(n) as int, 1 + encoded_len(n) + n as int) =~= payload);
}

/// Reading the bytes of a well-formed meta message, with anything after
/// them, gives the message back and stops where its bytes end.
#[verifier::rlimit(30)]
pub proof fn lemma_meta_round_trip(message: MetaMessageView, rest: Seq<u8>)
    requires
        message.wf(),
    ensures
        meta_bytes(message).len() >= 2,
        meta_of(meta_bytes(message) + rest) == Ok::<(MetaMessageView, nat), MetaMessageError>(
            (message, meta_bytes(message).len()),
        ),
{
    let bytes = meta_bytes(message) + rest;
    match message {
        MetaMessageView::SequenceNumber(n) => {
            lemma_be16_round_trip(n, 0, 0);
            assert(bytes[2] == be16_bytes(n)[0] && bytes[3] == be16_bytes(n)[1]);
        },
        MetaMessageView::TextEvent(text) => {
            lemma_text_round_trip(0x01, text, rest);
        },
        MetaMessageView::CopyrightNotice(text) => {
            lemma_text_round_trip(0x02, text, rest);
        },
        MetaMessageView::SequenceName(text) => {
            lemma_text_round_trip(0x03, text, rest);
        },
        MetaMessageView::InstrumentName(text) => {
            lemma_text_round_trip(0x04, text, rest);
        },
        MetaMessageView::Lyric(text) => {
            lemma_text_round_trip(0x05, text, rest);
        },
        MetaMessageView::Marker(text) => {
            lemma_text_round_trip(0x06, text, rest);
        },
        MetaMessageView::CuePoint(text) => {
            lemma_text_round_trip(0x07, text, rest);
        },
        MetaMessageView::SequencerSpecificEvent(payload) => {
            lemma_variable_round_trip(SEQUENCER_SPECIFIC_TYPE, payload, rest);
        },
        MetaMessageView::KeySignature { sharps_or_flats, key_type } => {
            sharps_or_flats.lemma_code_is_inverse(0);
            key_type.lemma_code_is_inverse(0);
            assert(bytes[2] == sharps_or_flats.byte() && bytes[3] == key_type.code());
        },
        MetaMessageView::SetTempo(tempo) => {
            assert(bytes[2] == be24_bytes(tempo)[0] && bytes[3] == be24_bytes(tempo)[1]
                && bytes[4] == be24_bytes(tempo)[2]);
        },
        MetaMessageView::SMPTEOffset { hour, minute, second, frame, hundredths_of_a_frame } => {
            assert(bytes[2] == hour && bytes[3] == minute && bytes[4] == second && bytes[5]
                == frame && bytes[6] == hundredths_of_a_frame);
        },
        MetaMessageView::TimeSignature { numerator, denominator, cc, bb } => {
            assert(bytes[2] == numerator && bytes[3] == denominator && bytes[4] == cc
                && bytes[5] == bb);
        },
        MetaMessageView::ChannelPrefix(channel) => {
            assert(bytes[2] == channel);
        },
        MetaMessageView::EndOfTrack => {
            assert(bytes[0] == 0x2F && bytes[1] == 0x00);
        },
    }
}

/// Reading a text message written from `text` gives `text` back.
pub proof fn lemma_text_round_trip(type_byte: u8, text: Seq<char>, rest: Seq<u8>)
    requires
        FIRST_TEXT_TYPE <= type_byte <= LAST_TEXT_TYPE,
        encode_utf8(text).len() <= MAX_REPRESENTABLE,
    ensures
        variable_bytes(type_byte, encode_utf8(text)).len() >= 2,
        meta_of(variable_bytes(type_byte, encode_utf8(text)) + rest) == Ok::<
            (MetaMessageView, nat),
            MetaMessageError,
        >((text_message(type_byte, text), variable_bytes(type_byte, encode_utf8(text)).len())),
{
    lemma_variable_round_trip(type_byte, encode_utf8(text), rest);
    encode_utf8_valid_utf8(text);
    encode_utf8_decode_utf8(text);
}

/// A payload that is found lies within the buffer, behind at least one
/// byte of length, and is short enough to be written again.
pub proof fn lemma_variable_reads_within(bytes: Seq<u8>)
    ensures
        variable_span(bytes) matches Some((start, end)) ==> 2 <= start <= end <= bytes.len() && end
            - start <= MAX_REPRESENTABLE,
{
    if bytes.len() > 0 {
        match decoded_len(bytes.skip(1)) {
            None => {},
            Some(len) => {
                lemma_decoded_value_bound(bytes.skip(1), len);
            },
        }
    }
}

/// What is read as a meta message is well formed and lies within the
/// buffer.
pub proof fn lemma_meta_reads_within(bytes: Seq<u8>)
    ensures
        meta_of(bytes) matches Ok((message, len)) ==> message.wf() && 2 <= len <= bytes.len(),
{
    if bytes.len() >= 2 && is_variable(bytes[0]) {
        lemma_variable_reads_within(bytes);
        match variable_span(bytes) {
            None => {},
            Some((start, end)) => {
                let payload = bytes.subrange(start, end);
                if bytes[0] != SEQUENCER_SPECIFIC_TYPE && valid_utf8(payload) {
                    decode_utf8_encode_utf8(payload);
                }
            },
        }
    }
}

impl From<KeyTypeError> for MetaMessageError {
    /// A fault of the key type, as a fault of the meta message.
    fn from(e: KeyTypeError) -> (wrapped: MetaMessageError)
        ensures
            wrapped == MetaMessageError::KeyType(e),
    {
        MetaMessageError::KeyType(e)
    }
}

impl vstd::std_specs::convert::FromSpecImpl<KeyTypeError> for MetaMessageError {
    open spec fn obeys_from_spec() -> bool {
        true
    }

    open spec fn from_spec(e: KeyTypeError) -> MetaMessageError {
        MetaMessageError::KeyType(e)
    }
}

impl From<SharpsOrFlatsError> for MetaMessageError {
    /// A fault of the count of sharps or flats, as a fault of the meta message.
    fn from(e: SharpsOrFlatsError) -> (wrapped: MetaMessageError)
        ensures
            wrapped == MetaMessageError::SharpsOrFlats(e),
    {
        MetaMessageError::SharpsOrFlats(e)
    }
}

impl vstd::std_specs::convert::FromSpecImpl<SharpsOrFlatsError> for MetaMessageError {
    open spec fn obeys_from_spec() -> bool {
        true
    }

    open spec fn from_spec(e: SharpsOrFlatsError) -> MetaMessageError {
        MetaMessageError::SharpsOrFlats(e)
    }
}

impl From<ChannelError> for MetaMessageError {
    /// A fault of the channel prefix, as a fault of the meta message.
    fn from(e: ChannelError) -> (wrapped: MetaMessageError)
        ensures
            wrapped == MetaMessageError::ChannelPrefix(e),
    {
        MetaMessageError::ChannelPrefix(e)
    }
}

impl vstd::std_specs::convert::FromSpecImpl<ChannelError> for MetaMessageError {
    open spec fn obeys_from_spec() -> bool {
        true
    }

    open spec fn from_spec(e: ChannelError) -> MetaMessageError {
        MetaMessageError::ChannelPrefix(e)
    }
}

impl From<std::string::FromUtf8Error> for MetaMessageError {
    /// Bytes that are no UTF-8, as a fault of the meta message.
    fn from(e: std::string::FromUtf8Error) -> (wrapped: MetaMessageError)
        ensures
            wrapped == MetaMessageError::TextIsNotUtf8,
    {
        MetaMessageError::TextIsNotUtf8
    }
}

impl vstd::std_specs::convert::FromSpecImpl<std::string::FromUtf8Error> for MetaMessageError {
    open spec fn obeys_from_spec() -> bool {
        true
    }

    open spec fn from_spec(e: std::string::FromUtf8Error) -> MetaMessageError {
        MetaMessageError::TextIsNotUtf8
    }
}

} // verus!
