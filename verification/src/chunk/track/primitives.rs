//! The small ranges that MIDI data bytes live in.

use vstd::prelude::*;
use crate::endian::{be24, be24_bytes};

verus! {

/// A data byte: 0 to 127. Its view is the integer.
#[derive(Debug, PartialEq, Eq, PartialOrd, Ord, Clone, Copy)]
pub struct U7 {
    value: u8,
}

/// Why a byte is no data byte.
#[derive(Debug, PartialEq, Eq, Clone, Copy)]
pub enum U7Error {
    Overflow,
}

/// One past the largest data byte: from here on the top bit is set.
pub const U7_LIMIT: u8 = 0x80;

impl View for U7 {
    type V = u8;

    closed spec fn view(&self) -> u8 {
        self.value
    }
}

impl U7 {
    #[verifier::type_invariant]
    spec fn in_range(&self) -> bool {
        self.value < U7_LIMIT
    }

    /// The value whose view is `value`.
    pub closed spec fn of_view(value: u8) -> U7 {
        U7 { value }
    }

    /// The view of that value is `value` again.
    pub proof fn lemma_of_view(value: u8)
        ensures
            U7::of_view(value)@ == value,
    {
    }

    /// The value as a plain integer.
    pub fn get(&self) -> (value: u8)
        ensures
            value == self@,
            value < U7_LIMIT,
    {
        proof {
            use_type_invariant(self);
        }
        self.value
    }
}

impl TryFrom<u8> for U7 {
    type Error = U7Error;

    /// Makes a data byte of `value`, if its top bit is clear.
    fn try_from(value: u8) -> (r: Result<U7, U7Error>)
        ensures
            match r {
                Ok(u) => value < U7_LIMIT && u@ == value,
                Err(e) => value >= U7_LIMIT && e == U7Error::Overflow,
            },
    {
        if value < U7_LIMIT {
            Ok(U7 { value })
        } else {
            Err(U7Error::Overflow)
        }
    }
}

impl vstd::std_specs::convert::TryFromSpecImpl<u8> for U7 {
    open spec fn obeys_try_from_spec() -> bool {
        true
    }

    open spec fn try_from_spec(value: u8) -> Result<U7, U7Error> {
        if value < U7_LIMIT {
            Ok(U7::of_view(value))
        } else {
            Err(U7Error::Overflow)
        }
    }
}

impl From<U7> for u8 {
    /// The data byte as a plain integer.
    fn from(value: U7) -> (byte: u8)
        ensures
            byte == value@,
            byte < U7_LIMIT,
    {
        value.get()
    }
}

impl vstd::std_specs::convert::FromSpecImpl<U7> for u8 {
    open spec fn obeys_from_spec() -> bool {
        true
    }

    open spec fn from_spec(value: U7) -> u8 {
        value@
    }
}

impl From<&U7> for u8 {
    /// The data byte as a plain integer.
    fn from(value: &U7) -> (byte: u8)
        ensures
            byte == value@,
            byte < U7_LIMIT,
    {
        value.get()
    }
}

impl vstd::std_specs::convert::FromSpecImpl<&U7> for u8 {
    open spec fn obeys_from_spec() -> bool {
        true
    }

    open spec fn from_spec(value: &U7) -> u8 {
        value@
    }
}

impl core::ops::BitOr<U7> for U7 {
    type Output = U7;

    /// The bits of both data bytes: seven bits joined with seven bits stay
    /// seven bits.
    fn bitor(self, rhs: U7) -> (joined: U7)
        ensures
            joined@ == self@ | rhs@,
    {
        let a: u8 = self.get();
        let b: u8 = rhs.get();
        assert(a | b < 0x80) by (bit_vector)
            requires
                a < 0x80,
                b < 0x80,
        ;
        U7 { value: a | b }
    }
}

impl vstd::std_specs::ops::BitOrSpecImpl<U7> for U7 {
    open spec fn obeys_bitor_spec() -> bool {
        true
    }

    open spec fn bitor_req(self, rhs: U7) -> bool {
        true
    }

    open spec fn bitor_spec(self, rhs: U7) -> U7 {
        U7::of_view(self@ | rhs@)
    }
}

impl core::ops::BitOr<u8> for U7 {
    type Output = Option<U7>;

    /// The bits of the data byte and of `rhs`, if they are a data byte.
    fn bitor(self, rhs: u8) -> (joined: Option<U7>)
        ensures
            match joined {
                Some(u) => u@ == self@ | rhs && rhs < U7_LIMIT,
                None => rhs >= U7_LIMIT,
            },
    {
        let a: u8 = self.get();
        assert(rhs < 0x80 ==> a | rhs < 0x80) by (bit_vector)
            requires
                a < 0x80,
        ;
        assert(rhs >= 0x80 ==> a | rhs >= 0x80) by (bit_vector);
        if a | rhs < U7_LIMIT {
            Some(U7 { value: a | rhs })
        } else {
            None
        }
    }
}

impl vstd::std_specs::ops::BitOrSpecImpl<u8> for U7 {
    open spec fn obeys_bitor_spec() -> bool {
        true
    }

    open spec fn bitor_req(self, rhs: u8) -> bool {
        true
    }

    open spec fn bitor_spec(self, rhs: u8) -> Option<U7> {
        if self@ | rhs < U7_LIMIT {
            Some(U7::of_view(self@ | rhs))
        } else {
            None
        }
    }
}

impl core::ops::BitOr<U7> for u8 {
    type Output = u8;

    /// The bits of the byte and of the data byte.
    fn bitor(self, rhs: U7) -> (joined: u8)
        ensures
            joined == self | rhs@,
    {
        self | rhs.get()
    }
}

impl vstd::std_specs::ops::BitOrSpecImpl<U7> for u8 {
    open spec fn obeys_bitor_spec() -> bool {
        true
    }

    open spec fn bitor_req(self, rhs: U7) -> bool {
        true
    }

    open spec fn bitor_spec(self, rhs: U7) -> u8 {
        self | rhs@
    }
}

/// One of the sixteen MIDI channels: 0 to 15. Its view is the integer.
#[derive(Debug, Clone, Copy, PartialEq, Eq)]
pub struct Channel {
    value: u8,
}

/// Why a byte is no channel.
#[derive(Debug, Clone, Copy, PartialEq, Eq)]
pub enum ChannelError {
    TooBig,
}

/// The number of channels.
pub const CHANNELS: u8 = 16;

impl View for Channel {
    type V = u8;

    closed spec fn view(&self) -> u8 {
        self.value
    }
}

impl Channel {
    #[verifier::type_invariant]
    spec fn in_range(&self) -> bool {
        self.value < CHANNELS
    }

    /// The value whose view is `value`.
    pub closed spec fn of_view(value: u8) -> Channel {
        Channel { value }
    }

    /// The view of that value is `value` again.
    pub proof fn lemma_of_view(value: u8)
        ensures
            Channel::of_view(value)@ == value,
    {
    }

    /// The channel that a status byte addresses: its low nibble.
    pub fn from_status(status: u8) -> (channel: Channel)
        ensures
            channel@ == status % 0x10,
    {
        Channel { value: status % 0x10 }
    }

    /// The value as a plain integer.
    pub fn get(&self) -> (value: u8)
        ensures
            value == self@,
            value < CHANNELS,
    {
        proof {
            use_type_invariant(self);
        }
        self.value
    }
}

impl TryFrom<u8> for Channel {
    type Error = ChannelError;

    /// Makes a channel of `value`, if it is below 16.
    fn try_from(value: u8) -> (r: Result<Channel, ChannelError>)
        ensures
            match r {
                Ok(c) => value < CHANNELS && c@ == value,
                Err(e) => value >= CHANNELS && e == ChannelError::TooBig,
            },
    {
        if value < CHANNELS {
            Ok(Channel { value })
        } else {
            Err(ChannelError::TooBig)
        }
    }
}

impl vstd::std_specs::convert::TryFromSpecImpl<u8> for Channel {
    open spec fn obeys_try_from_spec() -> bool {
        true
    }

    open spec fn try_from_spec(value: u8) -> Result<Channel, ChannelError> {
        if value < CHANNELS {
            Ok(Channel::of_view(value))
        } else {
            Err(ChannelError::TooBig)
        }
    }
}

impl From<Channel> for u8 {
    /// The channel number as a plain integer.
    fn from(value: Channel) -> (byte: u8)
        ensures
            byte == value@,
            byte < CHANNELS,
    {
        value.get()
    }
}

impl vstd::std_specs::convert::FromSpecImpl<Channel> for u8 {
    open spec fn obeys_from_spec() -> bool {
        true
    }

    open spec fn from_spec(value: Channel) -> u8 {
        value@
    }
}

/// Microseconds per quarter note, in 24 bits. Its view is the integer.
#[derive(Debug, Clone, Copy, PartialEq, Eq)]
pub struct Tempo {
    value: u32,
}

/// One past the largest tempo.
pub const TEMPO_LIMIT: u32 = 0x100_0000;

impl View for Tempo {
    type V = u32;

    closed spec fn view(&self) -> u32 {
        self.value
    }
}

impl Tempo {
    #[verifier::type_invariant]
    spec fn in_range(&self) -> bool {
        self.value < TEMPO_LIMIT
    }

    /// Makes the tempo of so many microseconds per quarter note, if they
    /// fit in 24 bits.
    pub fn new(microseconds_per_quarter_note: u32) -> (r: Option<Tempo>)
        ensures
            match r {
                Some(t) => microseconds_per_quarter_note < TEMPO_LIMIT && t@
                    == microseconds_per_quarter_note,
                None => microseconds_per_quarter_note >= TEMPO_LIMIT,
            },
    {
        if microseconds_per_quarter_note > TEMPO_LIMIT - 1 {
            None
        } else {
            Some(Tempo { value: microseconds_per_quarter_note })
        }
    }

    /// The tempo that three bytes spell, most significant first.
    pub fn from_be_bytes(bytes: [u8; 3]) -> (tempo: Tempo)
        ensures
            tempo@ == be24(bytes@[0], bytes@[1], bytes@[2]),
    {
        Tempo {
            value: (bytes[0] as u32) * 0x1_0000 + (bytes[1] as u32) * 0x100 + (bytes[2] as u32),
        }
    }

    /// The three bytes of this tempo, most significant first.
    pub fn to_be_bytes(&self) -> (bytes: [u8; 3])
        ensures
            bytes@ == be24_bytes(self@),
            self@ < TEMPO_LIMIT,
    {
        proof {
            use_type_invariant(self);
        }
        let t: u32 = self.value;
        let bytes: [u8; 3] = [
            ((t / 0x1_0000) % 0x100) as u8,
            ((t / 0x100) % 0x100) as u8,
            (t % 0x100) as u8,
        ];
        assert(bytes@ =~= be24_bytes(self@));
        bytes
    }

    /// The value as a plain integer.
    pub fn get(&self) -> (value: u32)
        ensures
            value == self@,
            value < TEMPO_LIMIT,
    {
        proof {
            use_type_invariant(self);
        }
        self.value
    }
}

} // verus!
