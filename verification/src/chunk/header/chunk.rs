//! The header chunk itself: fourteen bytes, of which six are payload.

use vstd::prelude::*;
use crate::chunk::{framed, unframed, ChunkType, EnvelopeError, ENVELOPE_LEN};
use crate::chunk::header::division::{
    division_bytes, division_of, lemma_division_is_byte_exact, lemma_division_round_trip,
    Division, DivisionError, DivisionView,
};
use crate::chunk::header::format::{Format, FormatError};
use crate::endian::{
    be16, be16_bytes, be32, be32_bytes, lemma_be16_round_trip, u16_from_be, u16_to_be,
    u32_from_be,
};
use crate::nonzero::NonZeroU16;

verus! {

/// The length of every header payload.
pub const PAYLOAD_LEN: usize = 6;

/// The length of every header chunk: envelope and payload.
pub const CHUNK_LEN: usize = 14;

/// The header of a file.
#[derive(Debug, Clone, Copy, PartialEq, Eq)]
pub struct Chunk {
    format: Format,
    ntrks: NonZeroU16,
    division: Division,
}

/// A header with its counts as plain integers.
pub struct HeaderView {
    pub format: Format,
    pub ntrks: u16,
    pub division: DivisionView,
}

/// Why a buffer does not hold a header chunk.
#[derive(Debug, PartialEq, Eq, Clone, Copy)]
pub enum ChunkError {
    /// The buffer is not 14 bytes long.
    InvalidSize,
    /// The tag is not `MThd`.
    InvalidType,
    /// The payload is not 6 bytes long.
    InvalidLength,
    InvalidFormat(FormatError),
    InvalidNumberOfTracks,
    InvalidDivision(DivisionError),
}

impl HeaderView {
    /// A header that a file can hold: at least one track, and a
    /// well-formed division.
    pub open spec fn wf(self) -> bool {
        self.ntrks != 0 && self.division.wf()
    }
}

impl View for Chunk {
    type V = HeaderView;

    closed spec fn view(&self) -> HeaderView {
        HeaderView { format: self.format, ntrks: self.ntrks@, division: self.division@ }
    }
}

/// The six bytes of a header's payload: format, number of tracks, division.
pub open spec fn payload_bytes(header: HeaderView) -> Seq<u8> {
    be16_bytes(header.format.code()) + be16_bytes(header.ntrks) + division_bytes(header.division)
}

/// The whole header chunk: the payload in its envelope.
pub open spec fn header_bytes(header: HeaderView) -> Seq<u8> {
    framed(ChunkType::Header, payload_bytes(header))
}

/// The header that a payload holds.
pub open spec fn payload_of(payload: Seq<u8>) -> Result<HeaderView, ChunkError> {
    if payload.len() != PAYLOAD_LEN {
        Err(ChunkError::InvalidLength)
    } else {
        match Format::of_code(be16(payload[0], payload[1])) {
            None => Err(ChunkError::InvalidFormat(FormatError::InvalidValue)),
            Some(format) => if be16(payload[2], payload[3]) == 0 {
                Err(ChunkError::InvalidNumberOfTracks)
            } else {
                match division_of(be16(payload[4], payload[5])) {
                    Err(e) => Err(ChunkError::InvalidDivision(e)),
                    Ok(division) => Ok(
                        HeaderView { format, ntrks: be16(payload[2], payload[3]), division },
                    ),
                }
            },
        }
    }
}

/// The header that a buffer holds: it must be one whole header chunk and
/// nothing else.
pub open spec fn header_of(bytes: Seq<u8>) -> Result<HeaderView, ChunkError> {
    if bytes.len() != CHUNK_LEN {
        Err(ChunkError::InvalidSize)
    } else if bytes.subrange(0, 4) != ChunkType::Header.tag() {
        Err(ChunkError::InvalidType)
    } else if be32(bytes[4], bytes[5], bytes[6], bytes[7]) != PAYLOAD_LEN {
        Err(ChunkError::InvalidLength)
    } else {
        payload_of(bytes.subrange(ENVELOPE_LEN as int, CHUNK_LEN as int))
    }
}

impl Chunk {
    /// The header whose view is `view`.
    pub closed spec fn of_view(view: HeaderView) -> Chunk {
        Chunk {
            format: view.format,
            ntrks: NonZeroU16::of_view(view.ntrks),
            division: Division::of_view(view.division),
        }
    }

    /// The view of that value is `view` again.
    pub proof fn lemma_of_view(view: HeaderView)
        ensures
            Chunk::of_view(view)@ == view,
    {
        NonZeroU16::lemma_of_view(view.ntrks);
        Division::lemma_of_view(view.division);
    }

    /// Makes the header of a file of `ntrks` tracks.
    pub fn new(format: Format, ntrks: NonZeroU16, division: Division) -> (chunk: Chunk)
        ensures
            chunk@ == (HeaderView { format, ntrks: ntrks@, division: division@ }),
    {
        Chunk { format, ntrks, division }
    }

    /// How the tracks relate to one another.
    pub fn format(&self) -> (format: Format)
        ensures
            format == self@.format,
    {
        self.format
    }

    /// The number of tracks.
    pub fn ntrks(&self) -> (ntrks: NonZeroU16)
        ensures
            ntrks@ == self@.ntrks,
    {
        self.ntrks
    }

    /// The unit of delta-times.
    pub fn division(&self) -> (division: Division)
        ensures
            division@ == self@.division,
    {
        self.division
    }

    /// The six bytes of this header's payload.
    pub fn payload(&self) -> (bytes: Vec<u8>)
        ensures
            bytes@ == payload_bytes(self@),
            bytes@.len() == PAYLOAD_LEN,
    {
        let mut bytes = self.format.to_bytes();
        let ntrks = u16_to_be(self.ntrks.get());
        bytes.push(ntrks[0]);
        bytes.push(ntrks[1]);
        bytes.push(self.division.high_byte());
        bytes.push(self.division.low_byte());
        assert(bytes@ =~= payload_bytes(self@));
        bytes
    }

    /// The fourteen bytes of this header chunk as they stand in a file.
    pub fn to_bytes(&self) -> (bytes: Vec<u8>)
        ensures
            bytes@ == header_bytes(self@),
            bytes@.len() == CHUNK_LEN,
    {
        let payload = self.payload();
        let mut bytes = ChunkType::Header.to_bytes();
        bytes.push(0);
        bytes.push(0);
        bytes.push(0);
        bytes.push(PAYLOAD_LEN as u8);
        bytes.push(payload[0]);
        bytes.push(payload[1]);
        bytes.push(payload[2]);
        bytes.push(payload[3]);
        bytes.push(payload[4]);
        bytes.push(payload[5]);
        assert(bytes@ =~= header_bytes(self@));
        bytes
    }

    /// Reads a header from its six-byte payload.
    pub fn from_payload(payload: &[u8]) -> (r: Result<Chunk, ChunkError>)
        ensures
            match r {
                Ok(chunk) => payload_of(payload@) == Ok::<HeaderView, ChunkError>(chunk@)
                    && chunk@.wf() && chunk == Chunk::of_view(chunk@),
                Err(e) => payload_of(payload@) == Err::<HeaderView, ChunkError>(e),
            },
    {
        if payload.len() != PAYLOAD_LEN {
            return Err(ChunkError::InvalidLength);
        }
        let format = match Format::try_from(u16_from_be(payload[0], payload[1])) {
            Ok(format) => format,
            Err(e) => {
                return Err(ChunkError::from(e));
            },
        };
        let ntrks = match NonZeroU16::new(u16_from_be(payload[2], payload[3])) {
            Some(ntrks) => ntrks,
            None => {
                return Err(ChunkError::InvalidNumberOfTracks);
            },
        };
        let division = match Division::try_from(u16_from_be(payload[4], payload[5])) {
            Ok(division) => division,
            Err(e) => {
                return Err(ChunkError::from(e));
            },
        };
        Ok(Chunk { format, ntrks, division })
    }
}

impl TryFrom<&[u8]> for Chunk {
    type Error = ChunkError;

    /// Reads a header from a buffer that holds one whole header chunk: 14
    /// bytes, tagged `MThd`, with a declared length of 6. Every buffer gets
    /// an answer: a header or the first fault found.
    fn try_from(value: &[u8]) -> (r: Result<Chunk, ChunkError>)
        ensures
            match r {
                Ok(chunk) => header_of(value@) == Ok::<HeaderView, ChunkError>(chunk@)
                    && chunk@.wf(),
                Err(e) => header_of(value@) == Err::<HeaderView, ChunkError>(e),
            },
    {
        if value.len() != CHUNK_LEN {
            return Err(ChunkError::InvalidSize);
        }
        match ChunkType::from_tag(value) {
            Some(ChunkType::Header) => {},
            _ => {
                proof {
                    assert(ChunkType::Header.tag()[2] != ChunkType::Track.tag()[2]);
                }
                return Err(ChunkError::InvalidType);
            },
        }
        if u32_from_be(value[4], value[5], value[6], value[7]) != PAYLOAD_LEN as u32 {
            return Err(ChunkError::InvalidLength);
        }
        Chunk::from_payload(vstd::slice::slice_subrange(value, ENVELOPE_LEN, CHUNK_LEN))
    }
}

impl vstd::std_specs::convert::TryFromSpecImpl<&[u8]> for Chunk {
    open spec fn obeys_try_from_spec() -> bool {
        true
    }

    open spec fn try_from_spec(value: &[u8]) -> Result<Chunk, ChunkError> {
        match header_of(value@) {
            Ok(view) => Ok(Chunk::of_view(view)),
            Err(e) => Err(e),
        }
    }
}

impl IntoIterator for Chunk {
    type Item = u8;

    type IntoIter = std::vec::IntoIter<u8>;

    /// Walks the fourteen bytes of this header chunk in file order.
    fn into_iter(self) -> (iter: std::vec::IntoIter<u8>)
        ensures
            vstd::std_specs::iter::IteratorSpec::remaining(&iter) == header_bytes(self@),
    {
        self.to_bytes().into_iter()
    }
}

/// Reading the bytes of a well-formed header gives the header back.
pub proof fn lemma_header_round_trip(header: HeaderView)
    requires
        header.wf(),
    ensures
        payload_bytes(header).len() == PAYLOAD_LEN,
        header_bytes(header).len() == CHUNK_LEN,
        payload_of(payload_bytes(header)) == Ok::<HeaderView, ChunkError>(header),
        header_of(header_bytes(header)) == Ok::<HeaderView, ChunkError>(header),
{
    let payload = payload_bytes(header);
    let bytes = header_bytes(header);
    lemma_division_round_trip(header.division);
    lemma_be16_round_trip(header.format.code(), 0, 0);
    lemma_be16_round_trip(header.ntrks, 0, 0);
    header.format.lemma_code_is_inverse(0);
    assert(payload[4] == division_bytes(header.division)[0]);
    assert(payload[5] == division_bytes(header.division)[1]);
    assert(bytes.subrange(0, 4) =~= ChunkType::Header.tag());
    assert(bytes.subrange(ENVELOPE_LEN as int, CHUNK_LEN as int) =~= payload);
}

/// A buffer that reads as a header is, to the envelope, a chunk of kind
/// `Header` with a payload of six bytes and nothing after it.
pub proof fn lemma_header_is_framed(bytes: Seq<u8>)
    requires
        header_of(bytes) is Ok,
    ensures
        unframed(bytes) == Ok::<(ChunkType, nat), EnvelopeError>(
            (ChunkType::Header, PAYLOAD_LEN as nat),
        ),
        bytes.len() == ENVELOPE_LEN + PAYLOAD_LEN,
        header_of(bytes) == payload_of(bytes.subrange(ENVELOPE_LEN as int, CHUNK_LEN as int)),
{
}

/// Writing a header that was read from a buffer gives the buffer back,
/// byte for byte.
pub proof fn lemma_header_is_byte_exact(bytes: Seq<u8>)
    ensures
        header_of(bytes) matches Ok(header) ==> header.wf() && header_bytes(header) == bytes,
{
    if let Ok(header) = header_of(bytes) {
        let payload = bytes.subrange(ENVELOPE_LEN as int, CHUNK_LEN as int);
        let tag = bytes.subrange(0, 4);
        assert(tag[0] == bytes[0] && tag[1] == bytes[1] && tag[2] == bytes[2] && tag[3]
            == bytes[3]);
        assert(payload[0] == bytes[8] && payload[1] == bytes[9] && payload[2] == bytes[10]
            && payload[3] == bytes[11] && payload[4] == bytes[12] && payload[5] == bytes[13]);
        lemma_division_is_byte_exact(be16(payload[4], payload[5]));
        lemma_be16_round_trip(0, payload[0], payload[1]);
        lemma_be16_round_trip(0, payload[2], payload[3]);
        lemma_be16_round_trip(0, payload[4], payload[5]);
        assert(payload_bytes(header) =~= payload);
        assert(be32_bytes(PAYLOAD_LEN as u32) =~= seq![0u8, 0u8, 0u8, 6u8]);
        assert(header_bytes(header) =~= bytes);
    }
}

impl From<FormatError> for ChunkError {
    /// A fault of the format, as a fault of the header.
    fn from(e: FormatError) -> (wrapped: ChunkError)
        ensures
            wrapped == ChunkError::InvalidFormat(e),
    {
        ChunkError::InvalidFormat(e)
    }
}

impl vstd::std_specs::convert::FromSpecImpl<FormatError> for ChunkError {
    open spec fn obeys_from_spec() -> bool {
        true
    }

    open spec fn from_spec(e: FormatError) -> ChunkError {
        ChunkError::InvalidFormat(e)
    }
}

impl From<DivisionError> for ChunkError {
    /// A fault of the division, as a fault of the header.
    fn from(e: DivisionError) -> (wrapped: ChunkError)
        ensures
            wrapped == ChunkError::InvalidDivision(e),
    {
        ChunkError::InvalidDivision(e)
    }
}

impl vstd::std_specs::convert::FromSpecImpl<DivisionError> for ChunkError {
    open spec fn obeys_from_spec() -> bool {
        true
    }

    open spec fn from_spec(e: DivisionError) -> ChunkError {
        ChunkError::InvalidDivision(e)
    }
}

} // verus!
