//! The format: how the tracks of a file relate to one another.

use vstd::prelude::*;
use crate::endian::{be16_bytes, u16_to_be};

verus! {

/// How the tracks of a file relate to one another.
#[derive(Debug, PartialEq, Eq, Clone, Copy)]
pub enum Format {
    SingleMultiChannelTrack,
    OneOrMoreSimultaneousTracks,
    OneOrMoreIndependentTracks,
}

/// Why an integer stands for no format.
#[derive(Debug, PartialEq, Eq, Clone, Copy)]
pub enum FormatError {
    InvalidValue,
}

impl Format {
    /// The integer that stands for this format in a file.
    pub open spec fn code(self) -> u16 {
        match self {
            Format::SingleMultiChannelTrack => 0,
            Format::OneOrMoreSimultaneousTracks => 1,
            Format::OneOrMoreIndependentTracks => 2,
        }
    }

    /// The format that `code` stands for, if it stands for one.
    pub open spec fn of_code(code: u16) -> Option<Format> {
        if code == Format::SingleMultiChannelTrack.code() {
            Some(Format::SingleMultiChannelTrack)
        } else if code == Format::OneOrMoreSimultaneousTracks.code() {
            Some(Format::OneOrMoreSimultaneousTracks)
        } else if code == Format::OneOrMoreIndependentTracks.code() {
            Some(Format::OneOrMoreIndependentTracks)
        } else {
            None
        }
    }

    /// The integer that stands for this format in a file.
    pub fn to_u16(self) -> (code: u16)
        ensures
            code == self.code(),
    {
        match self {
            Format::SingleMultiChannelTrack => 0,
            Format::OneOrMoreSimultaneousTracks => 1,
            Format::OneOrMoreIndependentTracks => 2,
        }
    }

    /// The two bytes of this format's code, high byte first.
    pub fn to_bytes(self) -> (bytes: Vec<u8>)
        ensures
            bytes@ == be16_bytes(self.code()),
    {
        let code = u16_to_be(self.to_u16());
        let mut bytes: Vec<u8> = Vec::with_capacity(2);
        bytes.push(code[0]);
        bytes.push(code[1]);
        assert(bytes@ =~= be16_bytes(self.code()));
        bytes
    }

    /// Codes and formats match one for one: a code stands for a format
    /// exactly when it is that format's code.
    pub proof fn lemma_code_is_inverse(self, code: u16)
        ensures
            Format::of_code(self.code()) == Some(self),
            Format::of_code(code) == Some(self) <==> code == self.code(),
    {
    }
}

impl TryFrom<u16> for Format {
    type Error = FormatError;

    /// Reads the format that `value` stands for.
    fn try_from(value: u16) -> (r: Result<Format, FormatError>)
        ensures
            match r {
                Ok(format) => Format::of_code(value) == Some(format),
                Err(e) => Format::of_code(value) is None && e == FormatError::InvalidValue,
            },
    {
        if value == Format::SingleMultiChannelTrack.to_u16() {
            Ok(Format::SingleMultiChannelTrack)
        } else if value == Format::OneOrMoreSimultaneousTracks.to_u16() {
            Ok(Format::OneOrMoreSimultaneousTracks)
        } else if value == Format::OneOrMoreIndependentTracks.to_u16() {
            Ok(Format::OneOrMoreIndependentTracks)
        } else {
            Err(FormatError::InvalidValue)
        }
    }
}

impl vstd::std_specs::convert::TryFromSpecImpl<u16> for Format {
    open spec fn obeys_try_from_spec() -> bool {
        true
    }

    open spec fn try_from_spec(value: u16) -> Result<Format, FormatError> {
        match Format::of_code(value) {
            Some(format) => Ok(format),
            None => Err(FormatError::InvalidValue),
        }
    }
}

} // verus!
