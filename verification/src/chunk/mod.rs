//! The envelope every chunk shares: a four-byte type tag, a four-byte
//! big-endian payload length, and then the payload itself.

use vstd::prelude::*;
use crate::endian::{be32, be32_bytes, lemma_be32_round_trip, u32_from_be, u32_to_be};

pub mod header;
pub mod track;

verus! {

/// The two kinds of chunk a file is made of.
#[derive(Debug, PartialEq, Eq, Clone, Copy)]
pub enum ChunkType {
    Header,
    Track,
}

/// Why a chunk cannot be framed or unframed.
#[derive(Debug, PartialEq, Eq, Clone, Copy)]
pub enum EnvelopeError {
    /// The buffer is shorter than the envelope, or than the payload the
    /// envelope declares.
    NotEnoughBytes,
    /// The tag is neither `MThd` nor `MTrk`.
    UnknownType,
    /// The payload is too long for a 32-bit length field.
    PayloadTooLong,
}

/// The number of bytes before the payload: the tag and the length field.
pub const ENVELOPE_LEN: usize = 8;

impl ChunkType {
    /// The ASCII tag of this kind: `MThd` or `MTrk`.
    pub open spec fn tag(self) -> Seq<u8> {
        match self {
            ChunkType::Header => seq![0x4Du8, 0x54u8, 0x68u8, 0x64u8],
            ChunkType::Track => seq![0x4Du8, 0x54u8, 0x72u8, 0x6Bu8],
        }
    }

    /// The kind whose tag stands at the front of `bytes`, if any.
    pub open spec fn of_tag(bytes: Seq<u8>) -> Option<ChunkType> {
        if bytes.len() >= 4 && bytes.subrange(0, 4) == ChunkType::Header.tag() {
            Some(ChunkType::Header)
        } else if bytes.len() >= 4 && bytes.subrange(0, 4) == ChunkType::Track.tag() {
            Some(ChunkType::Track)
        } else {
            None
        }
    }

    /// The four bytes of this kind's tag.
    pub fn to_bytes(self) -> (bytes: Vec<u8>)
        ensures
            bytes@ == self.tag(),
    {
        let bytes = match self {
            ChunkType::Header => vec![0x4Du8, 0x54u8, 0x68u8, 0x64u8],
            ChunkType::Track => vec![0x4Du8, 0x54u8, 0x72u8, 0x6Bu8],
        };
        assert(bytes@ =~= self.tag());
        bytes
    }

    /// Reads the tag in the first four bytes of `bytes`.
    pub fn from_tag(bytes: &[u8]) -> (kind: Option<ChunkType>)
        ensures
            kind == ChunkType::of_tag(bytes@),
    {
        if bytes.len() < 4 {
            return None;
        }
        proof {
            let head = bytes@.subrange(0, 4);
            assert(head[0] == bytes@[0] && head[1] == bytes@[1] && head[2] == bytes@[2] && head[3]
                == bytes@[3]);
            if bytes@[0] == 0x4D && bytes@[1] == 0x54 && bytes@[2] == 0x68 && bytes@[3] == 0x64 {
                assert(head =~= ChunkType::Header.tag());
            }
            if bytes@[0] == 0x4D && bytes@[1] == 0x54 && bytes@[2] == 0x72 && bytes@[3] == 0x6B {
                assert(head =~= ChunkType::Track.tag());
            }
        }
        if bytes[0] == 0x4D && bytes[1] == 0x54 && bytes[2] == 0x68 && bytes[3] == 0x64 {
            Some(ChunkType::Header)
        } else if bytes[0] == 0x4D && bytes[1] == 0x54 && bytes[2] == 0x72 && bytes[3] == 0x6B {
            Some(ChunkType::Track)
        } else {
            None
        }
    }
}

/// A chunk as it stands in a file: the tag, the payload's length in four
/// bytes, the payload.
pub open spec fn framed(kind: ChunkType, payload: Seq<u8>) -> Seq<u8>
    recommends
        payload.len() <= u32::MAX,
{
    kind.tag() + be32_bytes(payload.len() as u32) + payload
}

/// The length that the envelope at the front of `bytes` declares.
pub open spec fn declared_len(bytes: Seq<u8>) -> nat
    recommends
        bytes.len() >= ENVELOPE_LEN,
{
    be32(bytes[4], bytes[5], bytes[6], bytes[7]) as nat
}

/// What taking the envelope off the front of `bytes` gives: the kind of the
/// chunk and the length of its payload, which starts at byte 8.
pub open spec fn unframed(bytes: Seq<u8>) -> Result<(ChunkType, nat), EnvelopeError> {
    if bytes.len() < ENVELOPE_LEN {
        Err(EnvelopeError::NotEnoughBytes)
    } else if ChunkType::of_tag(bytes) is None {
        Err(EnvelopeError::UnknownType)
    } else if bytes.len() - ENVELOPE_LEN < declared_len(bytes) {
        Err(EnvelopeError::NotEnoughBytes)
    } else {
        Ok((ChunkType::of_tag(bytes)->Some_0, declared_len(bytes)))
    }
}

/// Wraps `payload` in the envelope of a chunk of the given kind.
pub fn frame(kind: ChunkType, payload: &[u8]) -> (r: Result<Vec<u8>, EnvelopeError>)
    ensures
        payload@.len() <= u32::MAX ==> r is Ok && r->Ok_0@ == framed(kind, payload@),
        payload@.len() > u32::MAX ==> r == Err::<Vec<u8>, EnvelopeError>(
            EnvelopeError::PayloadTooLong,
        ),
{
    if payload.len() > 0xFFFF_FFFF {
        return Err(EnvelopeError::PayloadTooLong);
    }
    let mut bytes = kind.to_bytes();
    let len = u32_to_be(payload.len() as u32);
    bytes.extend_from_slice(len.as_slice());
    bytes.extend_from_slice(payload);
    assert(bytes@ =~= framed(kind, payload@));
    Ok(bytes)
}

/// Takes the envelope off the chunk at the front of `bytes`: hands back the
/// kind, the payload, and what follows the payload.
pub fn unframe(bytes: &[u8]) -> (r: Result<(ChunkType, &[u8], &[u8]), EnvelopeError>)
    ensures
        match r {
            Ok((kind, payload, rest)) => {
                &&& unframed(bytes@) == Ok::<(ChunkType, nat), EnvelopeError>(
                    (kind, payload@.len()),
                )
                &&& payload@ == bytes@.subrange(
                    ENVELOPE_LEN as int,
                    ENVELOPE_LEN + payload@.len(),
                )
                &&& rest@ == bytes@.skip(ENVELOPE_LEN + payload@.len())
            },
            Err(e) => unframed(bytes@) == Err::<(ChunkType, nat), EnvelopeError>(e),
        },
{
    if bytes.len() < ENVELOPE_LEN {
        return Err(EnvelopeError::NotEnoughBytes);
    }
    let kind = match ChunkType::from_tag(bytes) {
        Some(kind) => kind,
        None => {
            return Err(EnvelopeError::UnknownType);
        },
    };
    let declared: u32 = u32_from_be(bytes[4], bytes[5], bytes[6], bytes[7]);
    if ((bytes.len() - ENVELOPE_LEN) as u64) < declared as u64 {
        return Err(EnvelopeError::NotEnoughBytes);
    }
    let end: usize = ENVELOPE_LEN + declared as usize;
    let payload = vstd::slice::slice_subrange(bytes, ENVELOPE_LEN, end);
    let rest = vstd::slice::slice_subrange(bytes, end, bytes.len());
    Ok((kind, payload, rest))
}

/// Framing then unframing gives back the kind, the payload and whatever
/// followed the chunk; the length field is the payload's byte count.
pub proof fn lemma_frame_round_trip(kind: ChunkType, payload: Seq<u8>, rest: Seq<u8>)
    requires
        payload.len() <= u32::MAX,
    ensures
        framed(kind, payload).len() == ENVELOPE_LEN + payload.len(),
        declared_len(framed(kind, payload) + rest) == payload.len(),
        unframed(framed(kind, payload) + rest) == Ok::<(ChunkType, nat), EnvelopeError>(
            (kind, payload.len()),
        ),
        (framed(kind, payload) + rest).subrange(
            ENVELOPE_LEN as int,
            ENVELOPE_LEN + payload.len(),
        ) == payload,
        (framed(kind, payload) + rest).skip(ENVELOPE_LEN + payload.len()) == rest,
{
    let bytes = framed(kind, payload) + rest;
    lemma_be32_round_trip(payload.len() as u32);
    assert(bytes.subrange(0, 4) =~= kind.tag());
    assert(ChunkType::Header.tag()[2] != ChunkType::Track.tag()[2]);
    assert(bytes.subrange(ENVELOPE_LEN as int, ENVELOPE_LEN + payload.len()) =~= payload);
    assert(bytes.skip(ENVELOPE_LEN + payload.len()) =~= rest);
}

/// The length field decides what is handed out: more than the buffer
/// holds is refused, and anything else is taken at its word, so that a
/// field that understates the payload leaves the rest of it in what follows
/// the chunk.
pub proof fn lemma_unframed_follows_declared_len(bytes: Seq<u8>)
    requires
        bytes.len() >= ENVELOPE_LEN,
        ChunkType::of_tag(bytes) is Some,
    ensures
        declared_len(bytes) > bytes.len() - ENVELOPE_LEN ==> unframed(bytes) == Err::<
            (ChunkType, nat),
            EnvelopeError,
        >(EnvelopeError::NotEnoughBytes),
        declared_len(bytes) <= bytes.len() - ENVELOPE_LEN ==> unframed(bytes) == Ok::<
            (ChunkType, nat),
            EnvelopeError,
        >((ChunkType::of_tag(bytes)->Some_0, declared_len(bytes))),
{
}

} // verus!
