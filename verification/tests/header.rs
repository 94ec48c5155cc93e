use midifile::chunk::header::{
    Chunk, ChunkError, Division, DivisionError, Format, FormatError, NTracks, NTracksError,
    SMPTETimecodeFormat, SMPTETimecodeFormatError,
};
use midifile::chunk::{frame, unframe, ChunkType, EnvelopeError};
use midifile::nonzero::{NonZeroU16, NonZeroU8};

#[test]
fn header_division_values_from_spec() {
    assert_eq!(
        Division::try_from(1u16).expect("It's in the spec!"),
        Division::TicksPerQuarterNote(NonZeroU16::new(1).unwrap())
    );
    assert_eq!(
        Division::try_from(0xE250u16).expect("It's in the spec!"),
        Division::SubdivisionsOfASecond {
            timecode_format: SMPTETimecodeFormat::NegThirty,
            ticks_per_frame: NonZeroU8::new(80).unwrap(),
        }
    );
}

#[test]
fn tests_division_values_from_spec() {
    assert_eq!(
        Division::try_from(1u16).expect("It's in the spec!"),
        Division::TicksPerQuarterNote(NonZeroU16::new(1).expect("Value is non-zero"))
    );
    assert_eq!(
        Division::try_from(0xE250u16).expect("It's in the spec!"),
        Division::SubdivisionsOfASecond {
            timecode_format: SMPTETimecodeFormat::NegThirty,
            ticks_per_frame: NonZeroU8::new(80).expect("Value is non-zero"),
        }
    );
}

#[test]
fn division_of_zero_is_refused() {
    assert_eq!(
        Division::try_from(0x0000),
        Err(DivisionError::TicksPerQuarterNoteMustBeGreaterThanZero)
    );
}

#[test]
fn division_with_zero_ticks_per_frame_is_refused() {
    for high in [0xE8u8, 0xE7, 0xE3, 0xE2] {
        assert_eq!(
            Division::try_from(u16::from_be_bytes([high, 0])),
            Err(DivisionError::TicksPerFrameMustBeGreaterThanZero)
        );
    }
}

#[test]
fn division_with_unknown_frame_rate_is_refused() {
    assert_eq!(
        Division::try_from(0x8000),
        Err(DivisionError::SMPTETimecodeFormatError(SMPTETimecodeFormatError::InvalidValue))
    );
    assert_eq!(
        Division::try_from(0xE150),
        Err(DivisionError::SMPTETimecodeFormatError(SMPTETimecodeFormatError::InvalidValue))
    );
}

fn timecode_format_of(value: i8) -> Option<SMPTETimecodeFormat> {
    match value {
        -24 => Some(SMPTETimecodeFormat::NegTwentyFour),
        -25 => Some(SMPTETimecodeFormat::NegTwentyFive),
        -29 => Some(SMPTETimecodeFormat::NegTwentyNine),
        -30 => Some(SMPTETimecodeFormat::NegThirty),
        _ => None,
    }
}

fn division_agrees_with_layout(value: u16) -> bool {
    let decoded = Division::try_from(value);
    if value == 0 {
        decoded == Err(DivisionError::TicksPerQuarterNoteMustBeGreaterThanZero)
    } else if value < 0x8000 {
        decoded == Ok(Division::TicksPerQuarterNote(NonZeroU16::new(value).unwrap()))
    } else {
        match timecode_format_of(value.to_be_bytes()[0] as i8) {
            None => {
                decoded
                    == Err(DivisionError::SMPTETimecodeFormatError(
                        SMPTETimecodeFormatError::InvalidValue,
                    ))
            }
            Some(timecode_format) => {
                if value.to_be_bytes()[1] == 0 {
                    decoded == Err(DivisionError::TicksPerFrameMustBeGreaterThanZero)
                } else {
                    decoded
                        == Ok(Division::SubdivisionsOfASecond {
                            timecode_format,
                            ticks_per_frame: NonZeroU8::new(value.to_be_bytes()[1]).unwrap(),
                        })
                }
            }
        }
    }
}

fn ticks_per_quarter_note_layout(value: u16) -> bool {
    if value == 0 {
        Division::try_from(value) == Err(DivisionError::TicksPerQuarterNoteMustBeGreaterThanZero)
    } else if value < 0x8000 {
        Division::try_from(value)
            == Ok(Division::TicksPerQuarterNote(NonZeroU16::new(value).unwrap()))
    } else {
        true
    }
}

#[test]
fn division_ticks_per_quarter_note() {
    quickcheck::quickcheck(ticks_per_quarter_note_layout as fn(u16) -> bool);
    assert!(ticks_per_quarter_note_layout(0));
    assert!(ticks_per_quarter_note_layout(0x7FFF));
}

fn ticks_per_frame_narrow_layout(format: u8, ticks_per_frame: u8) -> bool {
    let timecode_format = [
        SMPTETimecodeFormat::NegTwentyFour,
        SMPTETimecodeFormat::NegTwentyFive,
        SMPTETimecodeFormat::NegTwentyNine,
        SMPTETimecodeFormat::NegThirty,
    ][(format % 4) as usize];
    let value: u16 = u16::from_be_bytes([timecode_format.to_u8(), ticks_per_frame]);
    if ticks_per_frame == 0 {
        Division::try_from(value) == Err(DivisionError::TicksPerFrameMustBeGreaterThanZero)
    } else {
        Division::try_from(value)
            == Ok(Division::SubdivisionsOfASecond {
                timecode_format,
                ticks_per_frame: NonZeroU8::new(ticks_per_frame).unwrap(),
            })
    }
}

/// Called narrow because it checks a narrower range of invalid values than
/// the broad version.
#[test]
fn division_ticks_per_frame_narrow() {
    quickcheck::quickcheck(ticks_per_frame_narrow_layout as fn(u8, u8) -> bool);
    assert!(ticks_per_frame_narrow_layout(3, 0));
    assert!(ticks_per_frame_narrow_layout(3, 80));
}

/// Called broad because it checks a wider range of invalid values than the
/// narrow version.
#[test]
fn division_ticks_per_frame_broad() {
    for value in 0x8000..=u16::MAX {
        assert!(division_agrees_with_layout(value), "field {:#06X}", value);
    }
}

#[test]
fn division_fuzz() {
    quickcheck::quickcheck(division_agrees_with_layout as fn(u16) -> bool);
}

#[test]
fn division_every_field_value() {
    for value in 0..=u16::MAX {
        assert!(division_agrees_with_layout(value), "field {:#06X}", value);
    }
}

#[test]
fn division_bytes_derive_the_marker_bit() {
    let ticks = Division::try_from(0x0400).unwrap();
    assert_eq!(ticks.to_bytes(), vec![0x04, 0x00]);
    assert_eq!(ticks.high_byte(), 0x04);
    assert_eq!(ticks.low_byte(), 0x00);
    let frames = Division::try_from(0xE250).unwrap();
    assert_eq!(frames.to_bytes(), vec![0xE2, 0x50]);
    let marked = Division::TicksPerQuarterNote(NonZeroU16::new(0x8123).unwrap());
    assert_eq!(marked.to_bytes(), vec![0x01, 0x23]);
}

#[test]
fn division_round_trips_every_valid_field() {
    for value in 0..=u16::MAX {
        if let Ok(division) = Division::try_from(value) {
            assert_eq!(division.to_bytes(), value.to_be_bytes().to_vec());
        }
    }
}

#[test]
fn smpte_timecode_format_round_trips() {
    for format in [
        SMPTETimecodeFormat::NegTwentyFour,
        SMPTETimecodeFormat::NegTwentyFive,
        SMPTETimecodeFormat::NegTwentyNine,
        SMPTETimecodeFormat::NegThirty,
    ] {
        assert_eq!(SMPTETimecodeFormat::try_from(format.to_i8()), Ok(format));
        assert_eq!(SMPTETimecodeFormat::try_from(format.to_u8() as i8), Ok(format));
    }
    assert_eq!(SMPTETimecodeFormat::NegThirty.to_i8(), -30);
    assert_eq!(SMPTETimecodeFormat::NegThirty.to_u8(), 0xE2);
}

#[test]
fn smpte_timecode_format_likely_invalid() {
    for value in i8::MIN..=i8::MAX {
        match timecode_format_of(value) {
            Some(format) => assert_eq!(SMPTETimecodeFormat::try_from(value), Ok(format)),
            None => assert_eq!(
                SMPTETimecodeFormat::try_from(value),
                Err(SMPTETimecodeFormatError::InvalidValue)
            ),
        }
    }
}

#[test]
fn format_codes_are_a_bijection() {
    let all = [
        (0u16, Format::SingleMultiChannelTrack),
        (1, Format::OneOrMoreSimultaneousTracks),
        (2, Format::OneOrMoreIndependentTracks),
    ];
    for (code, format) in all {
        assert_eq!(Format::try_from(code), Ok(format));
        assert_eq!(format.to_u16(), code);
        assert_eq!(format.to_bytes(), code.to_be_bytes().to_vec());
    }
    for code in 3..=u16::MAX {
        assert_eq!(Format::try_from(code), Err(FormatError::InvalidValue));
    }
}

#[test]
fn ntracks_refuses_zero() {
    assert_eq!(NTracks::try_from(0), Err(NTracksError::NumberOfTracksMustBeGreaterThanZero));
    assert_eq!(NTracks::try_from(0x0102).unwrap().to_be_bytes(), [0x01, 0x02]);
}

#[test]
fn nonzero_counts_refuse_zero() {
    assert_eq!(NonZeroU16::new(0), None);
    assert_eq!(NonZeroU8::new(0), None);
    assert_eq!(NonZeroU16::new(1024).unwrap().get(), 1024);
    assert_eq!(NonZeroU8::new(80).unwrap().get(), 80);
}

fn division_from(ticks: bool, a: u16, b: u8) -> Division {
    if ticks {
        Division::TicksPerQuarterNote(NonZeroU16::new((a & 0x7FFF).max(1)).unwrap())
    } else {
        let timecode_format = [
            SMPTETimecodeFormat::NegTwentyFour,
            SMPTETimecodeFormat::NegTwentyFive,
            SMPTETimecodeFormat::NegTwentyNine,
            SMPTETimecodeFormat::NegThirty,
        ][(a % 4) as usize];
        Division::SubdivisionsOfASecond {
            timecode_format,
            ticks_per_frame: NonZeroU8::new(b.max(1)).unwrap(),
        }
    }
}

fn header_round_trips(format: u8, ntrks: u16, ticks: bool, a: u16, b: u8) -> bool {
    let format = Format::try_from((format % 3) as u16).unwrap();
    let ntrks = NonZeroU16::new(ntrks.max(1)).unwrap();
    let chunk = Chunk::new(format, ntrks, division_from(ticks, a, b));
    let bytes = chunk.to_bytes();
    bytes.len() == 14
        && bytes[4..8] == [0, 0, 0, 6]
        && Chunk::try_from(bytes.as_slice()) == Ok(chunk)
        && Chunk::from_payload(&bytes[8..]) == Ok(chunk)
        && chunk.payload() == bytes[8..].to_vec()
        && chunk.into_iter().collect::<Vec<u8>>() == bytes
}

#[test]
fn chunk_roundtrips() {
    quickcheck::quickcheck(header_round_trips as fn(u8, u16, bool, u16, u8) -> bool);
    assert!(header_round_trips(1, 11, true, 1024, 0));
    assert!(header_round_trips(2, u16::MAX, false, 3, 255));
}

fn header_decode_answers(bytes: Vec<u8>) -> bool {
    let mut buffer = [0u8; 14];
    for (slot, byte) in buffer.iter_mut().zip(bytes.iter()) {
        *slot = *byte;
    }
    match Chunk::try_from(&buffer[0..14]) {
        Ok(chunk) => chunk.to_bytes() == buffer.to_vec(),
        Err(_) => true,
    }
}

/// This test passes as long as decoding never panics and every header that
/// comes out writes back to the buffer it came from.
#[test]
fn chunk_fuzz() {
    quickcheck::quickcheck(header_decode_answers as fn(Vec<u8>) -> bool);
    let mut valid = vec![b'M', b'T', b'h', b'd', 0, 0, 0, 6];
    valid.extend([0u8, 1, 0, 11, 4, 0]);
    assert!(header_decode_answers(valid));
}

#[test]
fn header_fields_are_read_back() {
    let bytes = [b'M', b'T', b'h', b'd', 0, 0, 0, 6, 0, 1, 0, 11, 4, 0];
    let chunk = Chunk::try_from(&bytes[..]).unwrap();
    assert_eq!(chunk.format(), Format::OneOrMoreSimultaneousTracks);
    assert_eq!(chunk.ntrks().get(), 11);
    assert_eq!(
        chunk.division(),
        Division::TicksPerQuarterNote(NonZeroU16::new(1024).unwrap())
    );
    assert_eq!(chunk.to_bytes(), bytes.to_vec());
}

#[test]
fn header_errors_come_in_order() {
    let good = [b'M', b'T', b'h', b'd', 0, 0, 0, 6, 0, 1, 0, 11, 4, 0];
    assert_eq!(Chunk::try_from(&good[..13]), Err(ChunkError::InvalidSize));
    assert_eq!(Chunk::try_from(&[][..]), Err(ChunkError::InvalidSize));
    let mut bytes = good;
    bytes[2] = b'r';
    bytes[3] = b'k';
    assert_eq!(Chunk::try_from(&bytes[..]), Err(ChunkError::InvalidType));
    let mut bytes = good;
    bytes[0] = b'X';
    bytes[7] = 7;
    assert_eq!(Chunk::try_from(&bytes[..]), Err(ChunkError::InvalidType));
    let mut bytes = good;
    bytes[7] = 5;
    bytes[9] = 9;
    assert_eq!(Chunk::try_from(&bytes[..]), Err(ChunkError::InvalidLength));
    let mut bytes = good;
    bytes[9] = 3;
    bytes[11] = 0;
    assert_eq!(
        Chunk::try_from(&bytes[..]),
        Err(ChunkError::InvalidFormat(FormatError::InvalidValue))
    );
    let mut bytes = good;
    bytes[11] = 0;
    bytes[12] = 0;
    assert_eq!(Chunk::try_from(&bytes[..]), Err(ChunkError::InvalidNumberOfTracks));
    let mut bytes = good;
    bytes[12] = 0;
    assert_eq!(
        Chunk::try_from(&bytes[..]),
        Err(ChunkError::InvalidDivision(DivisionError::TicksPerQuarterNoteMustBeGreaterThanZero))
    );
    let mut bytes = good;
    bytes[12] = 0xE2;
    assert_eq!(
        Chunk::try_from(&bytes[..]),
        Err(ChunkError::InvalidDivision(DivisionError::TicksPerFrameMustBeGreaterThanZero))
    );
    bytes[12] = 0x90;
    assert_eq!(
        Chunk::try_from(&bytes[..]),
        Err(ChunkError::InvalidDivision(DivisionError::SMPTETimecodeFormatError(
            SMPTETimecodeFormatError::InvalidValue
        )))
    );
}

#[test]
fn header_faults_wrap_the_faults_of_the_fields() {
    assert_eq!(
        ChunkError::from(FormatError::InvalidValue),
        ChunkError::InvalidFormat(FormatError::InvalidValue)
    );
    assert_eq!(
        ChunkError::from(DivisionError::TicksPerFrameMustBeGreaterThanZero),
        ChunkError::InvalidDivision(DivisionError::TicksPerFrameMustBeGreaterThanZero)
    );
    assert_eq!(
        DivisionError::from(SMPTETimecodeFormatError::InvalidValue),
        DivisionError::SMPTETimecodeFormatError(SMPTETimecodeFormatError::InvalidValue)
    );
}

#[test]
fn header_payload_must_be_six_bytes() {
    assert_eq!(Chunk::from_payload(&[0, 1, 0, 11, 4]), Err(ChunkError::InvalidLength));
    assert_eq!(Chunk::from_payload(&[0, 1, 0, 11, 4, 0, 0]), Err(ChunkError::InvalidLength));
    assert!(Chunk::from_payload(&[0, 1, 0, 11, 4, 0]).is_ok());
}

#[test]
fn chunk_type_tags() {
    assert_eq!(ChunkType::Header.to_bytes(), b"MThd".to_vec());
    assert_eq!(ChunkType::Track.to_bytes(), b"MTrk".to_vec());
    assert_eq!(ChunkType::from_tag(b"MThd"), Some(ChunkType::Header));
    assert_eq!(ChunkType::from_tag(b"MTrk and more"), Some(ChunkType::Track));
    assert_eq!(ChunkType::from_tag(b"MTh"), None);
    assert_eq!(ChunkType::from_tag(b"RIFF"), None);
}

#[test]
fn frame_writes_the_payload_length() {
    let framed = frame(ChunkType::Track, &[1, 2, 3]).unwrap();
    assert_eq!(framed, vec![b'M', b'T', b'r', b'k', 0, 0, 0, 3, 1, 2, 3]);
    let long = vec![0xAAu8; 0x0102_03];
    let framed = frame(ChunkType::Header, &long).unwrap();
    assert_eq!(framed[4..8], [0x00, 0x01, 0x02, 0x03]);
    assert_eq!(framed.len(), 8 + long.len());
}

fn unframe_undoes_frame(track: bool, payload: Vec<u8>, rest: Vec<u8>) -> bool {
    let kind = if track { ChunkType::Track } else { ChunkType::Header };
    let mut bytes = frame(kind, &payload).unwrap();
    bytes.extend(&rest);
    unframe(&bytes) == Ok((kind, &payload[..], &rest[..]))
}

#[test]
fn unframe_round_trips() {
    quickcheck::quickcheck(unframe_undoes_frame as fn(bool, Vec<u8>, Vec<u8>) -> bool);
    assert!(unframe_undoes_frame(true, vec![], vec![]));
}

#[test]
fn unframe_refuses_a_corrupted_length() {
    let mut bytes = frame(ChunkType::Track, &[1, 2, 3]).unwrap();
    bytes[7] = 4;
    assert_eq!(unframe(&bytes), Err(EnvelopeError::NotEnoughBytes));
    bytes[4] = 0xFF;
    assert_eq!(unframe(&bytes), Err(EnvelopeError::NotEnoughBytes));
    bytes[4] = 0;
    bytes[7] = 2;
    assert_eq!(unframe(&bytes), Ok((ChunkType::Track, &[1u8, 2][..], &[3u8][..])));
}

#[test]
fn unframe_errors() {
    assert_eq!(unframe(b"MTrk\0\0\0"), Err(EnvelopeError::NotEnoughBytes));
    assert_eq!(unframe(b"RIFF\0\0\0\0"), Err(EnvelopeError::UnknownType));
    assert_eq!(unframe(b"RIFF\0\0\0\x09"), Err(EnvelopeError::UnknownType));
    assert_eq!(unframe(b"MThd\0\0\0\0"), Ok((ChunkType::Header, &[][..], &[][..])));
}
