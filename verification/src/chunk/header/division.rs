//! The division: the unit in which a file counts time, in one 16-bit field
//! whose top bit tells two layouts apart.

use vstd::prelude::*;
use crate::endian::{be16, be16_bytes, signed, to_signed};
use crate::nonzero::{NonZeroU16, NonZeroU8};

verus! {

/// The frame rates of SMPTE time code, each stored as a negative number.
#[derive(Debug, PartialEq, Eq, Clone, Copy)]
pub enum SMPTETimecodeFormat {
    NegTwentyFour,
    NegTwentyFive,
    NegTwentyNine,
    NegThirty,
}

/// Why an integer stands for no frame rate.
#[derive(Debug, PartialEq, Eq, Clone, Copy)]
pub enum SMPTETimecodeFormatError {
    InvalidValue,
}

impl SMPTETimecodeFormat {
    /// The signed integer that stands for this frame rate in a file.
    pub open spec fn code(self) -> int {
        match self {
            SMPTETimecodeFormat::NegTwentyFour => -24,
            SMPTETimecodeFormat::NegTwentyFive => -25,
            SMPTETimecodeFormat::NegTwentyNine => -29,
            SMPTETimecodeFormat::NegThirty => -30,
        }
    }

    /// The frame rate that `code` stands for, if it stands for one.
    pub open spec fn of_code(code: int) -> Option<SMPTETimecodeFormat> {
        if code == SMPTETimecodeFormat::NegTwentyFour.code() {
            Some(SMPTETimecodeFormat::NegTwentyFour)
        } else if code == SMPTETimecodeFormat::NegTwentyFive.code() {
            Some(SMPTETimecodeFormat::NegTwentyFive)
        } else if code == SMPTETimecodeFormat::NegTwentyNine.code() {
            Some(SMPTETimecodeFormat::NegTwentyNine)
        } else if code == SMPTETimecodeFormat::NegThirty.code() {
            Some(SMPTETimecodeFormat::NegThirty)
        } else {
            None
        }
    }

    /// The byte that holds this frame rate in a file: its code in two's
    /// complement, so always with the top bit set.
    pub open spec fn byte(self) -> u8 {
        (0x100 + self.code()) as u8
    }

    /// The signed integer that stands for this frame rate in a file.
    pub fn to_i8(self) -> (code: i8)
        ensures
            code == self.code(),
    {
        match self {
            SMPTETimecodeFormat::NegTwentyFour => -24,
            SMPTETimecodeFormat::NegTwentyFive => -25,
            SMPTETimecodeFormat::NegTwentyNine => -29,
            SMPTETimecodeFormat::NegThirty => -30,
        }
    }

    /// The byte that holds this frame rate in a file.
    pub fn to_u8(self) -> (byte: u8)
        ensures
            byte == self.byte(),
            byte >= 0x80,
    {
        (0x100 + self.to_i8() as i16) as u8
    }

    /// Codes and frame rates match one for one.
    pub proof fn lemma_code_is_inverse(self, code: int)
        ensures
            SMPTETimecodeFormat::of_code(self.code()) == Some(self),
            SMPTETimecodeFormat::of_code(code) == Some(self) <==> code == self.code(),
            SMPTETimecodeFormat::of_code(signed(self.byte())) == Some(self),
    {
    }
}

impl TryFrom<i8> for SMPTETimecodeFormat {
    type Error = SMPTETimecodeFormatError;

    /// Reads the frame rate that `value` stands for.
    fn try_from(value: i8) -> (r: Result<SMPTETimecodeFormat, SMPTETimecodeFormatError>)
        ensures
            match r {
                Ok(format) => SMPTETimecodeFormat::of_code(value as int) == Some(format),
                Err(e) => SMPTETimecodeFormat::of_code(value as int) is None && e
                    == SMPTETimecodeFormatError::InvalidValue,
            },
    {
        if value == SMPTETimecodeFormat::NegTwentyFour.to_i8() {
            Ok(SMPTETimecodeFormat::NegTwentyFour)
        } else if value == SMPTETimecodeFormat::NegTwentyFive.to_i8() {
            Ok(SMPTETimecodeFormat::NegTwentyFive)
        } else if value == SMPTETimecodeFormat::NegTwentyNine.to_i8() {
            Ok(SMPTETimecodeFormat::NegTwentyNine)
        } else if value == SMPTETimecodeFormat::NegThirty.to_i8() {
            Ok(SMPTETimecodeFormat::NegThirty)
        } else {
            Err(SMPTETimecodeFormatError::InvalidValue)
        }
    }
}

impl vstd::std_specs::convert::TryFromSpecImpl<i8> for SMPTETimecodeFormat {
    open spec fn obeys_try_from_spec() -> bool {
        true
    }

    open spec fn try_from_spec(value: i8) -> Result<SMPTETimecodeFormat, SMPTETimecodeFormatError> {
        match SMPTETimecodeFormat::of_code(value as int) {
            Some(found) => Ok(found),
            None => Err(SMPTETimecodeFormatError::InvalidValue),
        }
    }
}

/// The unit of delta-times: ticks of a quarter note, or ticks of an SMPTE
/// frame.
#[derive(Debug, PartialEq, Eq, Clone, Copy)]
pub enum Division {
    TicksPerQuarterNote(NonZeroU16),
    SubdivisionsOfASecond { timecode_format: SMPTETimecodeFormat, ticks_per_frame: NonZeroU8 },
}

/// A division with its counts as plain integers.
pub enum DivisionView {
    TicksPerQuarterNote(u16),
    SubdivisionsOfASecond { timecode_format: SMPTETimecodeFormat, ticks_per_frame: u8 },
}

/// Why a 16-bit field holds no division.
#[derive(Debug, PartialEq, Eq, Clone, Copy)]
pub enum DivisionError {
    TicksPerQuarterNoteMustBeGreaterThanZero,
    TicksPerFrameMustBeGreaterThanZero,
    SMPTETimecodeFormatError(SMPTETimecodeFormatError),
}

impl DivisionView {
    /// A division that a file can hold: no count is zero, and ticks of a
    /// quarter note leave the marker bit free.
    pub open spec fn wf(self) -> bool {
        match self {
            DivisionView::TicksPerQuarterNote(ticks) => 0 < ticks < MARKER_BIT,
            DivisionView::SubdivisionsOfASecond { ticks_per_frame, .. } => ticks_per_frame != 0,
        }
    }
}

/// The top bit of the 16-bit field tells the two layouts apart: clear for
/// ticks of a quarter note, set for subdivisions of a second.
pub const MARKER_BIT: u16 = 0x8000;

/// The division that the 16-bit field `field` holds.
pub open spec fn division_of(field: u16) -> Result<DivisionView, DivisionError> {
    if field < MARKER_BIT {
        if field == 0 {
            Err(DivisionError::TicksPerQuarterNoteMustBeGreaterThanZero)
        } else {
            Ok(DivisionView::TicksPerQuarterNote(field))
        }
    } else {
        match SMPTETimecodeFormat::of_code(signed((field / 0x100) as u8)) {
            None => Err(
                DivisionError::SMPTETimecodeFormatError(SMPTETimecodeFormatError::InvalidValue),
            ),
            Some(timecode_format) => if field % 0x100 == 0 {
                Err(DivisionError::TicksPerFrameMustBeGreaterThanZero)
            } else {
                Ok(
                    DivisionView::SubdivisionsOfASecond {
                        timecode_format,
                        ticks_per_frame: (field % 0x100) as u8,
                    },
                )
            },
        }
    }
}

/// The two bytes that hold `division` in a header. The marker bit comes
/// from the variant alone: it is cleared from a count of ticks, and a frame
/// rate always carries it.
pub open spec fn division_bytes(division: DivisionView) -> Seq<u8> {
    match division {
        DivisionView::TicksPerQuarterNote(ticks) => seq![
            ((ticks % MARKER_BIT) / 0x100) as u8,
            (ticks % 0x100) as u8,
        ],
        DivisionView::SubdivisionsOfASecond { timecode_format, ticks_per_frame } => seq![
            timecode_format.byte(),
            ticks_per_frame,
        ],
    }
}

impl View for Division {
    type V = DivisionView;

    open spec fn view(&self) -> DivisionView {
        match *self {
            Division::TicksPerQuarterNote(ticks) => DivisionView::TicksPerQuarterNote(ticks@),
            Division::SubdivisionsOfASecond {
                timecode_format,
                ticks_per_frame,
            } => DivisionView::SubdivisionsOfASecond {
                timecode_format,
                ticks_per_frame: ticks_per_frame@,
            },
        }
    }
}

impl Division {
    /// The division whose view is `view`.
    pub open spec fn of_view(view: DivisionView) -> Division {
        match view {
            DivisionView::TicksPerQuarterNote(ticks) => Division::TicksPerQuarterNote(
                NonZeroU16::of_view(ticks),
            ),
            DivisionView::SubdivisionsOfASecond {
                timecode_format,
                ticks_per_frame,
            } => Division::SubdivisionsOfASecond {
                timecode_format,
                ticks_per_frame: NonZeroU8::of_view(ticks_per_frame),
            },
        }
    }

    /// The view of that value is `view` again.
    pub proof fn lemma_of_view(view: DivisionView)
        ensures
            Division::of_view(view)@ == view,
    {
        match view {
            DivisionView::TicksPerQuarterNote(ticks) => {
                NonZeroU16::lemma_of_view(ticks);
            },
            DivisionView::SubdivisionsOfASecond { ticks_per_frame, .. } => {
                NonZeroU8::lemma_of_view(ticks_per_frame);
            },
        }
    }

    /// The first byte of this division in a header.
    pub fn high_byte(&self) -> (byte: u8)
        ensures
            byte == division_bytes(self@)[0],
    {
        match self {
            Division::TicksPerQuarterNote(ticks) => ((ticks.get() % MARKER_BIT) / 0x100) as u8,
            Division::SubdivisionsOfASecond { timecode_format, .. } => timecode_format.to_u8(),
        }
    }

    /// The second byte of this division in a header.
    pub fn low_byte(&self) -> (byte: u8)
        ensures
            byte == division_bytes(self@)[1],
    {
        match self {
            Division::TicksPerQuarterNote(ticks) => (ticks.get() % 0x100) as u8,
            Division::SubdivisionsOfASecond { ticks_per_frame, .. } => ticks_per_frame.get(),
        }
    }

    /// The two bytes of this division in a header.
    pub fn to_bytes(&self) -> (bytes: Vec<u8>)
        ensures
            bytes@ == division_bytes(self@),
    {
        let mut bytes: Vec<u8> = Vec::with_capacity(2);
        bytes.push(self.high_byte());
        bytes.push(self.low_byte());
        assert(bytes@ =~= division_bytes(self@));
        bytes
    }
}

impl TryFrom<u16> for Division {
    type Error = DivisionError;

    /// Reads a division from the 16-bit field of a header.
    fn try_from(field: u16) -> (r: Result<Division, DivisionError>)
        ensures
            match r {
                Ok(division) => division_of(field) == Ok::<DivisionView, DivisionError>(
                    division@,
                ) && division@.wf(),
                Err(e) => division_of(field) == Err::<DivisionView, DivisionError>(e),
            },
    {
        if field < MARKER_BIT {
            match NonZeroU16::new(field) {
                Some(ticks) => Ok(Division::TicksPerQuarterNote(ticks)),
                None => Err(DivisionError::TicksPerQuarterNoteMustBeGreaterThanZero),
            }
        } else {
            let timecode_format = match SMPTETimecodeFormat::try_from(
                to_signed((field / 0x100) as u8),
            ) {
                Ok(timecode_format) => timecode_format,
                Err(e) => {
                    return Err(DivisionError::from(e));
                },
            };
            match NonZeroU8::new((field % 0x100) as u8) {
                Some(ticks_per_frame) => Ok(
                    Division::SubdivisionsOfASecond { timecode_format, ticks_per_frame },
                ),
                None => Err(DivisionError::TicksPerFrameMustBeGreaterThanZero),
            }
        }
    }
}

impl vstd::std_specs::convert::TryFromSpecImpl<u16> for Division {
    open spec fn obeys_try_from_spec() -> bool {
        true
    }

    open spec fn try_from_spec(field: u16) -> Result<Division, DivisionError> {
        match division_of(field) {
            Ok(view) => Ok(Division::of_view(view)),
            Err(e) => Err(e),
        }
    }
}

/// Reading the bytes of a well-formed division gives the division back.
pub proof fn lemma_division_round_trip(division: DivisionView)
    requires
        division.wf(),
    ensures
        division_bytes(division).len() == 2,
        division_of(
            be16(division_bytes(division)[0], division_bytes(division)[1]),
        ) == Ok::<DivisionView, DivisionError>(division),
{
    match division {
        DivisionView::TicksPerQuarterNote(ticks) => {},
        DivisionView::SubdivisionsOfASecond { timecode_format, ticks_per_frame } => {
            timecode_format.lemma_code_is_inverse(0);
        },
    }
}

/// Writing a division that was read from a field gives the field back.
pub proof fn lemma_division_is_byte_exact(field: u16)
    ensures
        division_of(field) matches Ok(division) ==> division.wf() && division_bytes(division)
            == be16_bytes(field),
{
    if let Ok(division) = division_of(field) {
        assert(division_bytes(division) =~= be16_bytes(field));
    }
}

/// In a field with the marker bit set, a legal frame rate and a low byte of
/// zero, the ticks of a frame are refused as zero.
pub proof fn lemma_zero_ticks_per_frame(field: u16)
    requires
        field >= MARKER_BIT,
        field % 0x100 == 0,
        SMPTETimecodeFormat::of_code(signed((field / 0x100) as u8)) is Some,
    ensures
        division_of(field) == Err::<DivisionView, DivisionError>(
            DivisionError::TicksPerFrameMustBeGreaterThanZero,
        ),
{
}

impl From<SMPTETimecodeFormatError> for DivisionError {
    /// A frame rate that is not one of the four, as a fault of the division.
    fn from(e: SMPTETimecodeFormatError) -> (wrapped: DivisionError)
        ensures
            wrapped == DivisionError::SMPTETimecodeFormatError(e),
    {
        DivisionError::SMPTETimecodeFormatError(e)
    }
}

impl vstd::std_specs::convert::FromSpecImpl<SMPTETimecodeFormatError> for DivisionError {
    open spec fn obeys_from_spec() -> bool {
        true
    }

    open spec fn from_spec(e: SMPTETimecodeFormatError) -> DivisionError {
        DivisionError::SMPTETimecodeFormatError(e)
    }
}

} // verus!
