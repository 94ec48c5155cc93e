use midifile::chunk::header::{Chunk as HeaderChunk, Division, Format};
use midifile::chunk::track::{
    Channel, ChannelError, ChannelMessage, Chunk, ChunkError, Event, EventError, EventsList,
    KeyType, KeyTypeError, MTrkEvent, MTrkEventError, MetaMessage, MetaMessageError, ModeMessage,
    ModeMessageError, SharpsOrFlats, SharpsOrFlatsError, SysexMessage, Tempo, U7Error,
    VoiceMessage, VoiceMessageData, VoiceMessageDataError, VoiceMessageError, U7,
};
use midifile::nonzero::NonZeroU16;
use midifile::vlq::{VLQError, Vlq};

fn u7(value: u8) -> U7 {
    U7::try_from(value).unwrap()
}

fn channel(value: u8) -> Channel {
    Channel::try_from(value).unwrap()
}

fn at(delta_time: u32, event: Event) -> MTrkEvent {
    MTrkEvent::new(Vlq::try_from(delta_time).unwrap(), event)
}

fn voice(ch: u8, data: VoiceMessageData) -> Event {
    Event::Midi(ChannelMessage::Voice { channel: channel(ch), data })
}

fn track(payload: &[u8]) -> Vec<u8> {
    let mut bytes = b"MTrk".to_vec();
    bytes.extend((payload.len() as u32).to_be_bytes());
    bytes.extend(payload);
    bytes
}

fn expected_header() -> HeaderChunk {
    HeaderChunk::new(
        Format::OneOrMoreSimultaneousTracks,
        NonZeroU16::new(11).unwrap(),
        Division::TicksPerQuarterNote(NonZeroU16::new(1024).unwrap()),
    )
}

/// A file laid out like a sequenced Brandenburg concerto: a header that
/// declares 11 simultaneous tracks at 1024 ticks per quarter note, a
/// conductor track, and ten instrument tracks.
fn brandenburg() -> Vec<u8> {
    let mut data = vec![b'M', b'T', b'h', b'd', 0, 0, 0, 6, 0, 1, 0, 11, 4, 0];
    let mut conductor = vec![0x00, 0xFF, 0x58, 0x04, 0x04, 0x02, 0x18, 0x08];
    conductor.extend([0x00, 0xFF, 0x59, 0x02, 0x00, 0x00]);
    conductor.extend([0x00, 0xFF, 0x51, 0x03, 0x07, 0xA1, 0x20]);
    conductor.extend([0x00, 0xFF, 0x03, 0x0B]);
    conductor.extend(b"Brandenburg");
    conductor.extend([0x00, 0xFF, 0x2F, 0x00]);
    data.extend(track(&conductor));
    for instrument in 0..10u8 {
        let mut payload = vec![0x00, 0xFF, 0x04, 0x06];
        payload.extend(b"Violin");
        payload.extend([0x00, 0xC0 | instrument, 0x28]);
        payload.extend([0x00, 0x90 | instrument, 0x43, 0x50]);
        payload.extend([0x88, 0x00, 0x80 | instrument, 0x43, 0x40]);
        payload.extend([0x00, 0xE0 | instrument, 0x00, 0x40]);
        payload.extend([0x83, 0x80, 0x00, 0xFF, 0x2F, 0x00]);
        data.extend(track(&payload));
    }
    data
}

#[test]
fn chunks_from_brandenburg_concerto() {
    let data = brandenburg();
    let mut remainder: &[u8] = &data[14..];
    let mut result: Vec<Chunk> = Vec::new();
    while !remainder.is_empty() {
        let chunk: Chunk;
        (chunk, remainder) = Chunk::parse(remainder).expect("Should successfully parse the file");
        result.push(chunk);
    }

    assert!(true, "We managed to parse the file without crashing");
    assert_eq!(result.len(), 11);
    assert_eq!(result[0].events.0.len(), 5);
    assert_eq!(result[10].events.0.len(), 6);
}

#[test]
fn brandenburg_header_and_first_track() {
    let data = brandenburg();
    let header = HeaderChunk::try_from(&data[..14]).unwrap();
    assert_eq!(header, expected_header());
    assert_eq!(header.format(), Format::OneOrMoreSimultaneousTracks);
    assert_eq!(header.ntrks().get(), 11);
    assert_eq!(
        header.division(),
        Division::TicksPerQuarterNote(NonZeroU16::new(1024).unwrap())
    );
    let (first, rest) = Chunk::parse(&data[14..]).unwrap();
    let first_len = data.len() - 14 - rest.len();
    assert_eq!(first.to_bytes().unwrap(), data[14..14 + first_len].to_vec());
    assert_eq!(
        first.events.0[2],
        at(0, Event::Meta(MetaMessage::SetTempo(Tempo::new(500_000).unwrap())))
    );
    assert_eq!(
        first.events.0[3],
        at(0, Event::Meta(MetaMessage::SequenceName("Brandenburg".to_string())))
    );
    let (second, _) = Chunk::parse(rest).unwrap();
    assert_eq!(
        second.events.0[3],
        at(1024, voice(0, VoiceMessageData::NoteOff { note_number: u7(0x43), velocity: u7(0x40) }))
    );
    assert_eq!(second.events.0[5], at(0xC000, Event::Meta(MetaMessage::EndOfTrack)));
}

#[test]
fn voice_messages_have_exact_bytes() {
    let ch = channel(5);
    let cases: Vec<(VoiceMessageData, Vec<u8>)> = vec![
        (VoiceMessageData::NoteOff { note_number: u7(60), velocity: u7(0) }, vec![0x85, 60, 0]),
        (VoiceMessageData::NoteOn { note_number: u7(60), velocity: u7(127) }, vec![0x95, 60, 127]),
        (
            VoiceMessageData::PolyKeyPressure { note_number: u7(1), pressure: u7(2) },
            vec![0xA5, 1, 2],
        ),
        (VoiceMessageData::ControlChange, vec![0xB5]),
        (VoiceMessageData::ProgramChange { program_number: u7(9) }, vec![0xC5, 9]),
        (VoiceMessageData::ChannelPressure { pressure: u7(77) }, vec![0xD5, 77]),
        (VoiceMessageData::PitchBend { change: [u7(0x12), u7(0x34)] }, vec![0xE5, 0x12, 0x34]),
    ];
    for (data, bytes) in cases {
        assert_eq!(data.to_be_bytes(&ch), bytes);
        assert_eq!(data.get_first_nibble(), bytes[0] & 0xF0);
        let mut buffer = bytes.clone();
        buffer.push(0x11);
        assert_eq!(VoiceMessageData::parse(&buffer), Ok((data, &[0x11u8][..])));
        let event = voice(5, data);
        assert_eq!(event.to_bytes(), bytes);
        assert_eq!(Event::parse(&buffer), Ok((event, &[0x11u8][..])));
    }
}

#[test]
fn voice_message_errors() {
    assert_eq!(VoiceMessageData::parse(&[]), Err(VoiceMessageDataError::NotEnoughBytes));
    assert_eq!(VoiceMessageData::parse(&[0x90]), Err(VoiceMessageDataError::NotEnoughBytes));
    assert_eq!(VoiceMessageData::parse(&[0x90, 1]), Err(VoiceMessageDataError::NotEnoughBytes));
    assert_eq!(VoiceMessageData::parse(&[0x70, 1, 2]), Err(VoiceMessageDataError::MessageType));
    assert_eq!(VoiceMessageData::parse(&[0xF1, 1, 2]), Err(VoiceMessageDataError::MessageType));
    assert_eq!(
        VoiceMessageData::parse(&[0x90, 0x80]),
        Err(VoiceMessageDataError::NoteNumber(U7Error::Overflow))
    );
    assert_eq!(
        VoiceMessageData::parse(&[0x80, 0x00, 0x80]),
        Err(VoiceMessageDataError::Velocity(U7Error::Overflow))
    );
    assert_eq!(
        VoiceMessageData::parse(&[0xA0, 0x00, 0xFF]),
        Err(VoiceMessageDataError::Pressure(U7Error::Overflow))
    );
    assert_eq!(
        VoiceMessageData::parse(&[0xD0, 0xFF]),
        Err(VoiceMessageDataError::Pressure(U7Error::Overflow))
    );
    assert_eq!(
        VoiceMessageData::parse(&[0xC0, 0x80]),
        Err(VoiceMessageDataError::ProgramNumber(U7Error::Overflow))
    );
    assert_eq!(
        VoiceMessageData::parse(&[0xE0, 0x80, 0x00]),
        Err(VoiceMessageDataError::PitchBend(U7Error::Overflow))
    );
    assert_eq!(
        VoiceMessageData::parse(&[0xE0, 0x00, 0x80]),
        Err(VoiceMessageDataError::PitchBend(U7Error::Overflow))
    );
}

#[test]
fn primitive_ranges() {
    assert_eq!(U7::try_from(0x7F).map(|u| u.get()), Ok(0x7F));
    assert_eq!(U7::try_from(0x80), Err(U7Error::Overflow));
    assert_eq!(Channel::try_from(15).map(|c| c.get()), Ok(15));
    assert_eq!(Channel::try_from(16), Err(ChannelError::TooBig));
    assert_eq!(Channel::from_status(0x9C).get(), 0x0C);
    assert_eq!(Tempo::new(0x00FF_FFFF).map(|t| t.get()), Some(0x00FF_FFFF));
    assert_eq!(Tempo::new(0x0100_0000), None);
    assert_eq!(Tempo::new(500_000).unwrap().to_be_bytes(), [0x07, 0xA1, 0x20]);
    assert_eq!(Tempo::from_be_bytes([0x07, 0xA1, 0x20]).get(), 500_000);
}

#[test]
fn bits_join_with_the_or_operator() {
    assert_eq!(VoiceMessage::NoteOn | channel(3), 0x93);
    assert_eq!(channel(15) | VoiceMessage::PitchBend, 0xEF);
    assert_eq!(u7(0x41) | u7(0x12), u7(0x53));
    assert_eq!(u7(0x41) | 0x12u8, Some(u7(0x53)));
    assert_eq!(u7(0x41) | 0x80u8, None);
    assert_eq!(0x80u8 | u7(0x41), 0xC1);
}

#[test]
fn conversions_into_plain_integers() {
    assert_eq!(u8::from(u7(0x45)), 0x45);
    assert_eq!(u8::from(&u7(0x7F)), 0x7F);
    assert_eq!(u8::from(channel(9)), 9);
    assert_eq!(u32::from(Vlq::try_from(0x0FFF_FFFF).unwrap()), 0x0FFF_FFFF);
    assert_eq!(u32::from(&Vlq::try_from(0).unwrap()), 0);
}

#[test]
fn faults_wrap_into_the_fault_of_what_holds_them() {
    assert_eq!(
        MetaMessageError::from(KeyTypeError::InvalidValue),
        MetaMessageError::KeyType(KeyTypeError::InvalidValue)
    );
    assert_eq!(
        MetaMessageError::from(SharpsOrFlatsError::InvalidValue),
        MetaMessageError::SharpsOrFlats(SharpsOrFlatsError::InvalidValue)
    );
    assert_eq!(
        MetaMessageError::from(ChannelError::TooBig),
        MetaMessageError::ChannelPrefix(ChannelError::TooBig)
    );
    assert_eq!(
        MetaMessageError::from(String::from_utf8(vec![0xFF]).unwrap_err()),
        MetaMessageError::TextIsNotUtf8
    );
    assert_eq!(
        EventError::from(MetaMessageError::NotEnoughBytes),
        EventError::MetaMessage(MetaMessageError::NotEnoughBytes)
    );
    assert_eq!(
        EventError::from(ModeMessageError::InvalidValue),
        EventError::ModeMessage(ModeMessageError::InvalidValue)
    );
    assert_eq!(
        EventError::from(VoiceMessageDataError::MessageType),
        EventError::VoiceMessageData(VoiceMessageDataError::MessageType)
    );
    assert_eq!(
        MTrkEventError::from(VLQError::NotEnoughBytes),
        MTrkEventError::DeltaTime(VLQError::NotEnoughBytes)
    );
    assert_eq!(
        MTrkEventError::from(EventError::NotEnoughBytes),
        MTrkEventError::Event(EventError::NotEnoughBytes)
    );
    assert_eq!(
        ChunkError::from(MTrkEventError::NotEnoughBytes),
        ChunkError::MTrkEventError(MTrkEventError::NotEnoughBytes)
    );
}

#[test]
fn closed_sets_are_bijections() {
    let kinds = [
        (0x80u8, VoiceMessage::NoteOff),
        (0x90, VoiceMessage::NoteOn),
        (0xA0, VoiceMessage::PolyKeyPressure),
        (0xB0, VoiceMessage::ControlChange),
        (0xC0, VoiceMessage::ProgramChange),
        (0xD0, VoiceMessage::ChannelPressure),
        (0xE0, VoiceMessage::PitchBend),
    ];
    let modes = [
        (120u8, ModeMessage::AllSoundOff),
        (121, ModeMessage::ResetAllControllers),
        (122, ModeMessage::LocalControl),
        (123, ModeMessage::AllNotesOff),
        (124, ModeMessage::OmniOff),
        (125, ModeMessage::OmniOn),
        (126, ModeMessage::Mono),
        (127, ModeMessage::Poly),
    ];
    let counts = [
        (-7i8, SharpsOrFlats::SevenFlats),
        (-6, SharpsOrFlats::SixFlats),
        (-5, SharpsOrFlats::FiveFlats),
        (-4, SharpsOrFlats::FourFlats),
        (-3, SharpsOrFlats::ThreeFlats),
        (-2, SharpsOrFlats::TwoFlats),
        (-1, SharpsOrFlats::OneFlat),
        (0, SharpsOrFlats::NoSharpsOrFlats),
        (1, SharpsOrFlats::OneSharp),
        (2, SharpsOrFlats::TwoSharps),
        (3, SharpsOrFlats::ThreeSharps),
        (4, SharpsOrFlats::FourSharps),
        (5, SharpsOrFlats::FiveSharps),
        (6, SharpsOrFlats::SixSharps),
        (7, SharpsOrFlats::SevenSharps),
    ];
    for code in 0..=u8::MAX {
        match kinds.iter().find(|(c, _)| *c == code) {
            Some((_, kind)) => {
                assert_eq!(VoiceMessage::try_from(code), Ok(*kind));
                assert_eq!(kind.to_u8(), code);
            }
            None => assert_eq!(VoiceMessage::try_from(code), Err(VoiceMessageError::InvalidValue)),
        }
        match modes.iter().find(|(c, _)| *c == code) {
            Some((_, mode)) => {
                assert_eq!(ModeMessage::try_from(code), Ok(*mode));
                assert_eq!(mode.to_u8(), code);
            }
            None => assert_eq!(ModeMessage::try_from(code), Err(ModeMessageError::InvalidValue)),
        }
        match code {
            0 => assert_eq!(KeyType::try_from(code), Ok(KeyType::Major)),
            1 => assert_eq!(KeyType::try_from(code), Ok(KeyType::Minor)),
            _ => assert_eq!(KeyType::try_from(code), Err(KeyTypeError::InvalidValue)),
        }
        let signed = code as i8;
        match counts.iter().find(|(c, _)| *c == signed) {
            Some((_, count)) => {
                assert_eq!(SharpsOrFlats::try_from(signed), Ok(*count));
                assert_eq!(count.to_i8(), signed);
                assert_eq!(count.to_u8(), code);
            }
            None => {
                assert_eq!(SharpsOrFlats::try_from(signed), Err(SharpsOrFlatsError::InvalidValue))
            }
        }
    }
    assert_eq!(KeyType::Major.to_u8(), 0);
    assert_eq!(KeyType::Minor.to_u8(), 1);
}

#[test]
fn mode_messages_follow_a_control_change_status() {
    assert_eq!(ModeMessage::AllNotesOff.to_be_bytes(3), [0xB3, 123]);
    let event = Event::Midi(ChannelMessage::Mode(ModeMessage::Poly));
    assert_eq!(event.to_bytes(), vec![0xB0, 127]);
    assert_eq!(Event::parse(&[0xB0, 127, 9]), Ok((event, &[9u8][..])));
    assert_eq!(
        Event::parse(&[0xB7, 120]),
        Ok((Event::Midi(ChannelMessage::Mode(ModeMessage::AllSoundOff)), &[][..]))
    );
    assert_eq!(
        Event::parse(&[0xB0, 128]),
        Err(EventError::ModeMessage(ModeMessageError::InvalidValue))
    );
    assert_eq!(
        Event::parse(&[0xB2, 119, 1]),
        Ok((voice(2, VoiceMessageData::ControlChange), &[119u8, 1][..]))
    );
    assert_eq!(Event::parse(&[0xB2]), Ok((voice(2, VoiceMessageData::ControlChange), &[][..])));
    assert_eq!(ModeMessage::parse(&[126, 5]), Ok((ModeMessage::Mono, &[5u8][..])));
    assert_eq!(ModeMessage::parse(&[]), Err(ModeMessageError::NotEnoughBytes));
    assert_eq!(ModeMessage::parse(&[119]), Err(ModeMessageError::InvalidValue));
}

#[test]
fn sysex_messages_are_length_prefixed() {
    let message = SysexMessage::new(vec![0x7E, 0x7F, 0x09, 0x01, 0xF7]).unwrap();
    assert_eq!(message.length().get(), 5);
    assert_eq!(message.bytes(), &[0x7E, 0x7F, 0x09, 0x01, 0xF7]);
    let event = Event::Sysex(message.clone());
    let bytes = event.to_bytes();
    assert_eq!(bytes, vec![0xF0, 0x05, 0x7E, 0x7F, 0x09, 0x01, 0xF7]);
    assert_eq!(Event::parse(&bytes), Ok((event.clone(), &[][..])));
    let mut continued = bytes.clone();
    continued[0] = 0xF7;
    continued.push(0xAB);
    assert_eq!(Event::parse(&continued), Ok((event, &[0xABu8][..])));
    assert_eq!(Event::parse(&[0xF0]), Err(EventError::NotEnoughBytes));
    assert_eq!(Event::parse(&[0xF0, 0x81]), Err(EventError::NotEnoughBytes));
    assert_eq!(Event::parse(&[0xF0, 0x03, 1, 2]), Err(EventError::NotEnoughBytes));
    let long = SysexMessage::new(vec![0x55; 200]).unwrap();
    let bytes = Event::Sysex(long.clone()).to_bytes();
    assert_eq!(bytes[..3], [0xF0, 0x81, 0x48]);
    assert_eq!(bytes.len(), 203);
    assert_eq!(Event::parse(&bytes), Ok((Event::Sysex(long), &[][..])));
    assert_eq!(SysexMessage::new(vec![]).unwrap().length().get(), 0);
}

fn meta_cases() -> Vec<(MetaMessage, Vec<u8>)> {
    vec![
        (MetaMessage::SequenceNumber(0x0102), vec![0x00, 0x02, 0x01, 0x02]),
        (MetaMessage::TextEvent("hi".to_string()), vec![0x01, 0x02, b'h', b'i']),
        (MetaMessage::CopyrightNotice("c".to_string()), vec![0x02, 0x01, b'c']),
        (MetaMessage::SequenceName(String::new()), vec![0x03, 0x00]),
        (MetaMessage::InstrumentName("é".to_string()), vec![0x04, 0x02, 0xC3, 0xA9]),
        (MetaMessage::Lyric("la".to_string()), vec![0x05, 0x02, b'l', b'a']),
        (MetaMessage::Marker("A".to_string()), vec![0x06, 0x01, b'A']),
        (MetaMessage::CuePoint("go".to_string()), vec![0x07, 0x02, b'g', b'o']),
        (MetaMessage::ChannelPrefix(channel(9)), vec![0x20, 0x01, 0x09]),
        (MetaMessage::EndOfTrack, vec![0x2F, 0x00]),
        (
            MetaMessage::SetTempo(Tempo::new(500_000).unwrap()),
            vec![0x51, 0x03, 0x07, 0xA1, 0x20],
        ),
        (
            MetaMessage::SMPTEOffset {
                hour: 1,
                minute: 2,
                second: 3,
                frame: 4,
                hundredths_of_a_frame: 5,
            },
            vec![0x54, 0x05, 1, 2, 3, 4, 5],
        ),
        (
            MetaMessage::TimeSignature { numerator: 6, denominator: 3, cc: 36, bb: 8 },
            vec![0x58, 0x04, 6, 3, 36, 8],
        ),
        (
            MetaMessage::KeySignature {
                sharps_or_flats: SharpsOrFlats::ThreeFlats,
                key_type: KeyType::Minor,
            },
            vec![0x59, 0x02, 0xFD, 0x01],
        ),
        (MetaMessage::SequencerSpecificEvent(vec![0x00, 0xFF]), vec![0x7F, 0x02, 0x00, 0xFF]),
    ]
}

#[test]
fn meta_messages_have_exact_bytes() {
    for (message, bytes) in meta_cases() {
        assert_eq!(message.to_bytes(), bytes);
        let mut buffer = bytes.clone();
        buffer.extend([0xDE, 0xAD]);
        assert_eq!(MetaMessage::parse(&buffer), Ok((message.clone(), &[0xDEu8, 0xAD][..])));
        let event = Event::Meta(message);
        let mut framed = vec![0xFF];
        framed.extend(&bytes);
        assert_eq!(event.to_bytes(), framed);
        assert_eq!(Event::parse(&framed), Ok((event, &[][..])));
    }
}

#[test]
fn long_text_takes_a_longer_length() {
    let text = "x".repeat(300);
    let message = MetaMessage::Lyric(text.clone());
    let bytes = message.to_bytes();
    assert_eq!(bytes[..3], [0x05, 0x82, 0x2C]);
    assert_eq!(&bytes[3..], text.as_bytes());
    assert_eq!(MetaMessage::parse(&bytes), Ok((message, &[][..])));
}

#[test]
fn text_must_be_utf8() {
    assert_eq!(MetaMessage::parse(&[0x01, 0x02, 0xC3, 0x28]), Err(MetaMessageError::TextIsNotUtf8));
    assert_eq!(MetaMessage::parse(&[0x07, 0x01, 0xFF]), Err(MetaMessageError::TextIsNotUtf8));
    assert_eq!(
        MetaMessage::parse(&[0x06, 0x03, 0xE2, 0x99, 0xAA]),
        Ok((MetaMessage::Marker("\u{266A}".to_string()), &[][..]))
    );
    assert_eq!(
        MetaMessage::parse(&[0x7F, 0x02, 0xC3, 0x28]),
        Ok((MetaMessage::SequencerSpecificEvent(vec![0xC3, 0x28]), &[][..]))
    );
}

#[test]
fn meta_message_errors() {
    assert_eq!(MetaMessage::parse(&[]), Err(MetaMessageError::NotEnoughBytes));
    assert_eq!(MetaMessage::parse(&[0x2F]), Err(MetaMessageError::NotEnoughBytes));
    assert_eq!(MetaMessage::parse(&[0x00, 0x02, 0x01]), Err(MetaMessageError::NotEnoughBytes));
    assert_eq!(MetaMessage::parse(&[0x20, 0x01]), Err(MetaMessageError::NotEnoughBytes));
    assert_eq!(MetaMessage::parse(&[0x51, 0x03, 1, 2]), Err(MetaMessageError::NotEnoughBytes));
    assert_eq!(MetaMessage::parse(&[0x54, 0x05, 1, 2, 3, 4]), Err(MetaMessageError::NotEnoughBytes));
    assert_eq!(MetaMessage::parse(&[0x58, 0x04, 1, 2, 3]), Err(MetaMessageError::NotEnoughBytes));
    assert_eq!(MetaMessage::parse(&[0x59, 0x02, 1]), Err(MetaMessageError::NotEnoughBytes));
    assert_eq!(MetaMessage::parse(&[0x01, 0x03, b'a', b'b']), Err(MetaMessageError::NotEnoughBytes));
    assert_eq!(MetaMessage::parse(&[0x7F, 0x81]), Err(MetaMessageError::NotEnoughBytes));
    assert_eq!(MetaMessage::parse(&[0x00, 0x03, 0, 0]), Err(MetaMessageError::Unrecognized([0x00, 0x03])));
    assert_eq!(MetaMessage::parse(&[0x2F, 0x01, 0]), Err(MetaMessageError::Unrecognized([0x2F, 0x01])));
    assert_eq!(MetaMessage::parse(&[0x08, 0x00]), Err(MetaMessageError::Unrecognized([0x08, 0x00])));
    assert_eq!(
        MetaMessage::parse(&[0x20, 0x01, 0x10]),
        Err(MetaMessageError::ChannelPrefix(ChannelError::TooBig))
    );
    assert_eq!(
        MetaMessage::parse(&[0x59, 0x02, 0x08, 0x00]),
        Err(MetaMessageError::SharpsOrFlats(SharpsOrFlatsError::InvalidValue))
    );
    assert_eq!(
        MetaMessage::parse(&[0x59, 0x02, 0xF9, 0x02]),
        Err(MetaMessageError::KeyType(KeyTypeError::InvalidValue))
    );
}

#[test]
fn event_errors() {
    assert_eq!(Event::parse(&[]), Err(EventError::NotEnoughBytes));
    assert_eq!(
        Event::parse(&[0xFF]),
        Err(EventError::MetaMessage(MetaMessageError::NotEnoughBytes))
    );
    assert_eq!(
        Event::parse(&[0xFF, 0x60, 0x00]),
        Err(EventError::MetaMessage(MetaMessageError::Unrecognized([0x60, 0x00])))
    );
    assert_eq!(
        Event::parse(&[0x40, 0x00]),
        Err(EventError::VoiceMessageData(VoiceMessageDataError::MessageType))
    );
    assert_eq!(
        Event::parse(&[0xF1, 0x00]),
        Err(EventError::VoiceMessageData(VoiceMessageDataError::MessageType))
    );
    assert_eq!(
        Event::parse(&[0x90, 0x40]),
        Err(EventError::VoiceMessageData(VoiceMessageDataError::NotEnoughBytes))
    );
}

#[test]
fn track_events_join_delta_time_and_event() {
    let event = at(0x80, voice(0, VoiceMessageData::NoteOn { note_number: u7(60), velocity: u7(64) }));
    assert_eq!(event.delta_time().get(), 0x80);
    assert_eq!(event.to_bytes(), vec![0x81, 0x00, 0x90, 60, 64]);
    assert_eq!(MTrkEvent::parse(&[0x81, 0x00, 0x90, 60, 64, 0x00]), Ok((event.clone(), &[0u8][..])));
    assert_eq!(event.event(), &voice(0, VoiceMessageData::NoteOn { note_number: u7(60), velocity: u7(64) }));
    let short = at(0, voice(1, VoiceMessageData::ProgramChange { program_number: u7(7) }));
    assert_eq!(MTrkEvent::parse(&[0x00, 0xC1, 0x07]), Ok((short, &[][..])));
    assert_eq!(MTrkEvent::parse(&[]), Err(MTrkEventError::NotEnoughBytes));
    assert_eq!(
        MTrkEvent::parse(&[0x81]),
        Err(MTrkEventError::DeltaTime(VLQError::NotEnoughBytes))
    );
    assert_eq!(MTrkEvent::parse(&[0x00]), Err(MTrkEventError::Event(EventError::NotEnoughBytes)));
}

#[test]
fn track_chunk_has_exact_bytes() {
    let chunk = Chunk::new(vec![
        at(0, voice(0, VoiceMessageData::NoteOn { note_number: u7(60), velocity: u7(64) })),
        at(0x60, voice(0, VoiceMessageData::NoteOff { note_number: u7(60), velocity: u7(0) })),
        at(0, Event::Meta(MetaMessage::EndOfTrack)),
    ]);
    let bytes = chunk.to_bytes().unwrap();
    let expected = vec![
        b'M', b'T', b'r', b'k', 0, 0, 0, 12, 0x00, 0x90, 60, 64, 0x60, 0x80, 60, 0, 0x00, 0xFF,
        0x2F, 0x00,
    ];
    assert_eq!(bytes, expected);
    assert_eq!(chunk.events.to_bytes(), expected[8..].to_vec());
    let mut buffer = expected.clone();
    buffer.extend(b"MTrk");
    assert_eq!(Chunk::parse(&buffer), Ok((chunk, &b"MTrk"[..])));
}

#[test]
fn empty_track_round_trips() {
    let chunk = Chunk::new(vec![]);
    let bytes = chunk.to_bytes().unwrap();
    assert_eq!(bytes, vec![b'M', b'T', b'r', b'k', 0, 0, 0, 0]);
    assert_eq!(Chunk::parse(&bytes), Ok((chunk, &[][..])));
}

#[test]
fn end_of_track_does_not_end_the_reading() {
    let payload = [0x00, 0xFF, 0x2F, 0x00, 0x00, 0xC0, 0x01];
    let bytes = track(&payload);
    let (chunk, rest) = Chunk::parse(&bytes).unwrap();
    assert!(rest.is_empty());
    assert_eq!(chunk.events.0.len(), 2);
    assert_eq!(chunk.events.0[0], at(0, Event::Meta(MetaMessage::EndOfTrack)));
}

#[test]
fn track_chunk_errors() {
    assert_eq!(Chunk::parse(&[]), Err(ChunkError::NotEnoughBytes));
    assert_eq!(Chunk::parse(b"MTrk\0\0\0"), Err(ChunkError::NotEnoughBytes));
    assert_eq!(Chunk::parse(b"MTrk\0\0\0\x04\0\xFF\x2F"), Err(ChunkError::NotEnoughBytes));
    assert_eq!(Chunk::parse(b"MThd\0\0\0\0"), Err(ChunkError::ChunkType));
    assert_eq!(Chunk::parse(b"RIFF\0\0\0\0"), Err(ChunkError::ChunkType));
    assert_eq!(
        Chunk::parse(&track(&[0x00, 0xFF, 0x2F, 0x00, 0x00])),
        Err(ChunkError::MTrkEventError(MTrkEventError::Event(EventError::NotEnoughBytes)))
    );
    assert_eq!(
        Chunk::parse(&track(&[0x00, 0xFF, 0x2F, 0x00, 0x81])),
        Err(ChunkError::MTrkEventError(MTrkEventError::DeltaTime(VLQError::NotEnoughBytes)))
    );
    assert_eq!(
        Chunk::parse(&track(&[0x00, 0x90, 0x40])),
        Err(ChunkError::MTrkEventError(MTrkEventError::Event(EventError::VoiceMessageData(
            VoiceMessageDataError::NotEnoughBytes
        ))))
    );
    assert_eq!(
        Chunk::parse(&track(&[0x00, 0xFF, 0x01, 0x01, 0xFF])),
        Err(ChunkError::MTrkEventError(MTrkEventError::Event(EventError::MetaMessage(
            MetaMessageError::TextIsNotUtf8
        ))))
    );
}

#[test]
fn a_shortened_length_field_cuts_the_last_event() {
    let mut bytes = track(&[0x00, 0x90, 60, 64, 0x00, 0xFF, 0x2F, 0x00]);
    bytes[7] = 7;
    assert_eq!(
        Chunk::parse(&bytes),
        Err(ChunkError::MTrkEventError(MTrkEventError::Event(EventError::MetaMessage(
            MetaMessageError::NotEnoughBytes
        ))))
    );
    bytes[7] = 9;
    assert_eq!(Chunk::parse(&bytes), Err(ChunkError::NotEnoughBytes));
    bytes[7] = 4;
    let (chunk, rest) = Chunk::parse(&bytes).unwrap();
    assert_eq!(chunk.events.0.len(), 1);
    assert_eq!(rest, &[0x00, 0xFF, 0x2F, 0x00]);
}

#[test]
fn control_change_before_a_long_delta_reads_as_a_mode_message() {
    let chunk = Chunk::new(vec![
        at(0, voice(0, VoiceMessageData::ControlChange)),
        at(120, Event::Meta(MetaMessage::EndOfTrack)),
    ]);
    assert!(!chunk.events.stands_clear());
    let bytes = chunk.to_bytes().unwrap();
    assert_eq!(bytes[8..], [0x00, 0xB0, 0x78, 0xFF, 0x2F, 0x00]);
    assert_eq!(
        MTrkEvent::parse(&bytes[8..]),
        Ok((
            at(0, Event::Midi(ChannelMessage::Mode(ModeMessage::AllSoundOff))),
            &[0xFFu8, 0x2F, 0x00][..]
        ))
    );
    assert_eq!(
        Chunk::parse(&bytes),
        Err(ChunkError::MTrkEventError(MTrkEventError::Event(EventError::VoiceMessageData(
            VoiceMessageDataError::MessageType
        ))))
    );
    let clear = Chunk::new(vec![
        at(0, voice(0, VoiceMessageData::ControlChange)),
        at(119, Event::Meta(MetaMessage::EndOfTrack)),
    ]);
    assert!(clear.events.stands_clear());
    let bytes = clear.to_bytes().unwrap();
    assert_eq!(Chunk::parse(&bytes), Ok((clear, &[][..])));
}

fn event_from(kind: u8, a: u8, b: u8, text: String, raw: Vec<u8>) -> Event {
    let ch = a % 16;
    let (x, y) = (u7(a % 128), u7(b % 128));
    let modes = [
        ModeMessage::AllSoundOff,
        ModeMessage::ResetAllControllers,
        ModeMessage::LocalControl,
        ModeMessage::AllNotesOff,
        ModeMessage::OmniOff,
        ModeMessage::OmniOn,
        ModeMessage::Mono,
        ModeMessage::Poly,
    ];
    match kind % 24 {
        0 => voice(ch, VoiceMessageData::NoteOff { note_number: x, velocity: y }),
        1 => voice(ch, VoiceMessageData::NoteOn { note_number: x, velocity: y }),
        2 => voice(ch, VoiceMessageData::PolyKeyPressure { note_number: x, pressure: y }),
        3 => voice(ch, VoiceMessageData::ControlChange),
        4 => voice(ch, VoiceMessageData::ProgramChange { program_number: y }),
        5 => voice(ch, VoiceMessageData::ChannelPressure { pressure: y }),
        6 => voice(ch, VoiceMessageData::PitchBend { change: [x, y] }),
        7 => Event::Midi(ChannelMessage::Mode(modes[(b % 8) as usize])),
        8 => Event::Sysex(SysexMessage::new(raw).unwrap()),
        9 => Event::Meta(MetaMessage::SequenceNumber(u16::from_be_bytes([a, b]))),
        10 => Event::Meta(MetaMessage::TextEvent(text)),
        11 => Event::Meta(MetaMessage::CopyrightNotice(text)),
        12 => Event::Meta(MetaMessage::SequenceName(text)),
        13 => Event::Meta(MetaMessage::InstrumentName(text)),
        14 => Event::Meta(MetaMessage::Lyric(text)),
        15 => Event::Meta(MetaMessage::Marker(text)),
        16 => Event::Meta(MetaMessage::CuePoint(text)),
        17 => Event::Meta(MetaMessage::ChannelPrefix(channel(ch))),
        18 => Event::Meta(MetaMessage::EndOfTrack),
        19 => Event::Meta(MetaMessage::SetTempo(
            Tempo::new(u32::from_be_bytes([0, a, b, a ^ b])).unwrap(),
        )),
        20 => Event::Meta(MetaMessage::SMPTEOffset {
            hour: a,
            minute: b,
            second: a ^ b,
            frame: a.wrapping_add(b),
            hundredths_of_a_frame: a.wrapping_mul(b),
        }),
        21 => Event::Meta(MetaMessage::TimeSignature {
            numerator: a,
            denominator: b,
            cc: a ^ b,
            bb: a.wrapping_add(b),
        }),
        22 => Event::Meta(MetaMessage::KeySignature {
            sharps_or_flats: SharpsOrFlats::try_from((a % 15) as i8 - 7).unwrap(),
            key_type: KeyType::try_from(b % 2).unwrap(),
        }),
        _ => Event::Meta(MetaMessage::SequencerSpecificEvent(raw)),
    }
}

fn events_from(seeds: Vec<(u32, u8, u8, u8, String, Vec<u8>)>) -> Vec<MTrkEvent> {
    let mut events: Vec<MTrkEvent> = Vec::new();
    let mut after_control_change = false;
    for (delta, kind, a, b, text, raw) in seeds {
        let mut delta = delta & 0x0FFF_FFFF;
        if after_control_change {
            delta %= 120;
        }
        let event = event_from(kind, a, b, text, raw);
        after_control_change = event == voice(a % 16, VoiceMessageData::ControlChange);
        events.push(at(delta, event));
    }
    events
}

fn make_bytes_holds(seeds: Vec<(u32, u8, u8, u8, String, Vec<u8>)>) -> bool {
    let events = events_from(seeds);
    let mut payload_bytes: Vec<u8> = Vec::with_capacity((events.len() * 5) + 8);
    for event in &events {
        let dt_bytes = event.delta_time().to_bytes();
        assert!(dt_bytes.len() <= 4);
        payload_bytes.extend(dt_bytes);
        payload_bytes.extend(event.event().to_bytes());
    }
    let expected = track(&payload_bytes);
    Chunk::new(events).to_bytes() == Ok(expected)
}

#[test]
fn make_bytes() {
    quickcheck::quickcheck(make_bytes_holds as fn(Vec<(u32, u8, u8, u8, String, Vec<u8>)>) -> bool);
}

fn round_trip_holds(seeds: Vec<(u32, u8, u8, u8, String, Vec<u8>)>, rest: Vec<u8>) -> bool {
    let chunk = Chunk::new(events_from(seeds));
    if !chunk.events.is_wf() || !chunk.events.stands_clear() {
        return false;
    }
    let mut chunk_bytes = chunk.to_bytes().unwrap();
    let len = chunk_bytes.len();
    chunk_bytes.extend(&rest);
    match Chunk::parse(&chunk_bytes) {
        Ok((parsed, remainder)) => {
            parsed == chunk
                && remainder == &rest[..]
                && chunk_bytes[4..8] == ((len - 8) as u32).to_be_bytes()
        }
        Err(_) => false,
    }
}

#[test]
fn round_trip_to_bytes() {
    quickcheck::quickcheck(
        round_trip_holds as fn(Vec<(u32, u8, u8, u8, String, Vec<u8>)>, Vec<u8>) -> bool,
    );
}

#[test]
fn every_kind_of_event_round_trips() {
    let mut seeds = Vec::new();
    for kind in 0..24u8 {
        seeds.push((
            (kind as u32) * 0x0123_4567,
            kind,
            kind.wrapping_mul(37),
            kind.wrapping_mul(91),
            format!("text {}", kind),
            vec![kind; kind as usize * 11],
        ));
    }
    assert!(round_trip_holds(seeds.clone(), vec![1, 2, 3]));
    assert!(make_bytes_holds(seeds));
}

fn parsing_never_panics(bytes: Vec<u8>) -> bool {
    match Chunk::parse(&track(&bytes)) {
        Ok((chunk, rest)) => rest.is_empty() && chunk.events.0.len() <= bytes.len(),
        Err(ChunkError::MTrkEventError(_)) => true,
        Err(_) => false,
    }
}

#[test]
fn track_fuzz() {
    quickcheck::quickcheck(parsing_never_panics as fn(Vec<u8>) -> bool);
}

#[test]
fn writable_messages_are_told_apart() {
    assert!(MetaMessage::TextEvent("short".to_string()).is_wf());
    assert!(MetaMessage::EndOfTrack.is_wf());
    assert!(MetaMessage::SequencerSpecificEvent(vec![0; 0x4000]).is_wf());
    let event = Event::Meta(MetaMessage::Lyric("la".to_string()));
    assert!(event.is_wf());
    assert!(voice(0, VoiceMessageData::ControlChange).is_wf());
    assert!(at(0, event.clone()).is_wf());
    let list = EventsList(vec![at(0, event.clone()), at(1, event)]);
    assert!(list.is_wf());
    assert_eq!(Vec::<MTrkEvent>::from(list.clone()), list.0);
}

#[test]
fn events_list_writes_the_payload_alone() {
    let list = EventsList(vec![at(0, Event::Meta(MetaMessage::EndOfTrack))]);
    assert_eq!(list.to_bytes(), vec![0x00, 0xFF, 0x2F, 0x00]);
}
