//! The track chunk itself: the events of a track in playing order, in the
//! envelope tagged `MTrk`. The payload ends where the envelope says, not at
//! any marker: events are read until no byte of it is left.

use vstd::prelude::*;
use crate::chunk::track::event::{
    lemma_mtrk_reads_within, lemma_mtrk_round_trip, mtrk_bytes, mtrk_of, MTrkEvent,
    MTrkEventError, MTrkEventView,
};
use crate::chunk::track::channel::FIRST_MODE_CODE;
use crate::chunk::{
    frame, framed, lemma_frame_round_trip, unframe, unframed, ChunkType, EnvelopeError,
    ENVELOPE_LEN,
};
use crate::vlq::encoding;

verus! {

/// The events of a track, in playing order.
#[derive(Debug, Clone, PartialEq, Eq)]
pub struct EventsList(pub Vec<MTrkEvent>);

/// A track chunk.
#[derive(Debug, Clone, PartialEq, Eq)]
pub struct Chunk {
    pub events: EventsList,
}

/// Why a buffer does not open with a track chunk.
#[derive(Debug, PartialEq, Eq, Clone, Copy)]
pub enum ChunkError {
    /// The buffer ends inside the envelope or the payload it declares.
    NotEnoughBytes,
    /// The tag is not `MTrk`.
    ChunkType,
    MTrkEventError(MTrkEventError),
}

impl View for EventsList {
    type V = Seq<MTrkEventView>;

    open spec fn view(&self) -> Seq<MTrkEventView> {
        Seq::new(self.0@.len(), |i: int| self.0@[i]@)
    }
}

impl View for Chunk {
    type V = Seq<MTrkEventView>;

    open spec fn view(&self) -> Seq<MTrkEventView> {
        self.events@
    }
}

/// The events as they stand in a payload: each one's bytes, in order.
pub open spec fn events_bytes(events: Seq<MTrkEventView>) -> Seq<u8>
    decreases events.len(),
{
    if events.len() == 0 {
        Seq::empty()
    } else {
        mtrk_bytes(events[0]) + events_bytes(events.skip(1))
    }
}

/// The events that a payload holds: one is read after the other until the
/// payload is used up. An event that its bytes do not complete is an
/// error, wherever it stands.
pub open spec fn events_of(payload: Seq<u8>) -> Result<Seq<MTrkEventView>, MTrkEventError>
    decreases payload.len(),
    via events_of_terminates
{
    if payload.len() == 0 {
        Ok(Seq::empty())
    } else {
        match mtrk_of(payload) {
            Err(e) => Err(e),
            Ok((event, len)) => after(event, events_of(payload.skip(len as int))),
        }
    }
}

/// The reading ends: every event takes at least two bytes and no more than
/// are left.
#[via_fn]
proof fn events_of_terminates(payload: Seq<u8>) {
    lemma_mtrk_reads_within(payload);
}

/// The events read so far, followed by what reading the rest gives.
pub open spec fn after_all(
    done: Seq<MTrkEventView>,
    rest: Result<Seq<MTrkEventView>, MTrkEventError>,
) -> Result<Seq<MTrkEventView>, MTrkEventError> {
    match rest {
        Err(e) => Err(e),
        Ok(tail) => Ok(done + tail),
    }
}

/// One event, followed by what reading the rest gives.
pub open spec fn after(
    event: MTrkEventView,
    rest: Result<Seq<MTrkEventView>, MTrkEventError>,
) -> Result<Seq<MTrkEventView>, MTrkEventError> {
    after_all(seq![event], rest)
}

/// The track chunk as it stands in a file: the events in the envelope.
pub open spec fn chunk_bytes(events: Seq<MTrkEventView>) -> Seq<u8>
    recommends
        events_bytes(events).len() <= u32::MAX,
{
    framed(ChunkType::Track, events_bytes(events))
}

/// What reading a track chunk from the front of `bytes` gives: its events
/// and the number of bytes read, envelope included.
pub open spec fn chunk_of(bytes: Seq<u8>) -> Result<(Seq<MTrkEventView>, nat), ChunkError> {
    match unframed(bytes) {
        Err(EnvelopeError::UnknownType) => Err(ChunkError::ChunkType),
        Err(_) => Err(ChunkError::NotEnoughBytes),
        Ok((ChunkType::Header, _)) => Err(ChunkError::ChunkType),
        Ok((ChunkType::Track, len)) => match events_of(
            bytes.subrange(ENVELOPE_LEN as int, ENVELOPE_LEN + len),
        ) {
            Err(e) => Err(ChunkError::MTrkEventError(e)),
            Ok(events) => Ok((events, ENVELOPE_LEN as nat + len)),
        },
    }
}

/// Whether every event stands clear of the next: no control change is
/// followed by an event whose delta-time is 120 or more. A control change
/// is its status byte alone, and behind it such a delta-time would read as
/// the code of a mode message.
pub open spec fn stands_clear(events: Seq<MTrkEventView>) -> bool {
    forall|i: int|
        0 <= i < events.len() - 1 ==> !(#[trigger] events[i]).event.is_control_change()
            || events[i + 1].delta_time < FIRST_MODE_CODE
}

impl EventsList {
    /// Whether every event of the list can be written.
    pub open spec fn wf(&self) -> bool {
        forall|i: int| 0 <= i < self.0@.len() ==> (#[trigger] self.0@[i]).wf()
    }

    /// Tells whether every event of the list can be written.
    pub fn is_wf(&self) -> (ok: bool)
        ensures
            ok == self.wf(),
    {
        let mut i: usize = 0;
        while i < self.0.len()
            invariant
                i <= self.0@.len(),
                forall|j: int| 0 <= j < i ==> (#[trigger] self.0@[j]).wf(),
            decreases self.0@.len() - i,
        {
            if !self.0[i].is_wf() {
                return false;
            }
            i += 1;
        }
        true
    }

    /// Tells whether every event stands clear of the next, so that the
    /// list reads back as it was written.
    #[verifier::rlimit(30)]
    pub fn stands_clear(&self) -> (ok: bool)
        ensures
            ok == stands_clear(self@),
    {
        let mut i: usize = 1;
        while i < self.0.len()
            invariant
                1 <= i,
                self@.len() == self.0@.len(),
                forall|j: int|
                    0 <= j < i - 1 && j < self@.len() - 1 ==> !(#[trigger] self@[j]).event.is_control_change()
                        || self@[j + 1].delta_time < FIRST_MODE_CODE,
            decreases self.0@.len() - i,
        {
            let before = &self.0[i - 1];
            let next = &self.0[i];
            proof {
                assert(self@[i - 1] == before@);
                assert(self@[i as int] == next@);
            }
            if before.event().is_control_change() && next.delta_time().get()
                >= FIRST_MODE_CODE as u32 {
                return false;
            }
            i += 1;
        }
        true
    }

    /// The events as they stand in a payload.
    pub fn to_bytes(&self) -> (bytes: Vec<u8>)
        requires
            self.wf(),
        ensures
            bytes@ == events_bytes(self@),
            forall|i: int| 0 <= i < self@.len() ==> (#[trigger] self@[i]).wf(),
    {
        let mut bytes: Vec<u8> = Vec::new();
        let mut i: usize = 0;
        proof {
            assert(self@.take(0) =~= Seq::empty());
        }
        while i < self.0.len()
            invariant
                i <= self.0@.len(),
                self@.len() == self.0@.len(),
                self.wf(),
                bytes@ == events_bytes(self@.take(i as int)),
                forall|j: int| 0 <= j < i ==> (#[trigger] self@[j]).wf(),
            decreases self.0@.len() - i,
        {
            let event = self.0[i].to_bytes();
            bytes.extend_from_slice(event.as_slice());
            proof {
                lemma_events_bytes_push(self@.take(i as int), self@[i as int]);
                assert(self@.take(i as int).push(self@[i as int]) =~= self@.take(i + 1));
            }
            i += 1;
        }
        proof {
            assert(self@.take(i as int) =~= self@);
        }
        bytes
    }
}

impl Chunk {
    /// Makes the track chunk of `events`.
    pub fn new(events: Vec<MTrkEvent>) -> (chunk: Chunk)
        ensures
            chunk.events.0 == events,
    {
        Chunk { events: EventsList(events) }
    }

    /// The chunk as it stands in a file, if its payload fits the 32-bit
    /// length field.
    pub fn to_bytes(&self) -> (r: Result<Vec<u8>, EnvelopeError>)
        requires
            self.events.wf(),
        ensures
            events_bytes(self@).len() <= u32::MAX ==> r is Ok && r->Ok_0@ == chunk_bytes(self@),
            events_bytes(self@).len() > u32::MAX ==> r == Err::<Vec<u8>, EnvelopeError>(
                EnvelopeError::PayloadTooLong,
            ),
    {
        let payload = self.events.to_bytes();
        frame(ChunkType::Track, payload.as_slice())
    }

    /// Reads one track chunk from the front of `value` and hands back what
    /// follows it.
    pub fn parse(value: &[u8]) -> (r: Result<(Chunk, &[u8]), ChunkError>)
        ensures
            match r {
                Ok((chunk, rest)) => {
                    &&& chunk_of(value@) matches Ok((events, len))
                    &&& chunk@ == events
                    &&& chunk.events.wf()
                    &&& ENVELOPE_LEN <= len <= value@.len()
                    &&& rest@ == value@.skip(len as int)
                },
                Err(e) => chunk_of(value@) == Err::<(Seq<MTrkEventView>, nat), ChunkError>(e),
            },
    {
        let (payload, rest) = match unframe(value) {
            Ok((ChunkType::Track, payload, rest)) => (payload, rest),
            Ok((ChunkType::Header, _, _)) => {
                return Err(ChunkError::ChunkType);
            },
            Err(EnvelopeError::UnknownType) => {
                return Err(ChunkError::ChunkType);
            },
            Err(_) => {
                return Err(ChunkError::NotEnoughBytes);
            },
        };
        let mut events = EventsList(Vec::new());
        let mut remainder = payload;
        proof {
            assert(events@ + Seq::<MTrkEventView>::empty() =~= events@);
            assert(Seq::<MTrkEventView>::empty() + events_of(payload@)->Ok_0 =~= events_of(
                payload@,
            )->Ok_0);
        }
        while remainder.len() > 0
            invariant
                unframed(value@) == Ok::<(ChunkType, nat), EnvelopeError>(
                    (ChunkType::Track, payload@.len()),
                ),
                payload@ == value@.subrange(ENVELOPE_LEN as int, ENVELOPE_LEN + payload@.len()),
                events.wf(),
                events_of(payload@) == after_all(events@, events_of(remainder@)),
            decreases remainder@.len(),
        {
            let ghost before = events@;
            match MTrkEvent::parse(remainder) {
                Ok((event, rest)) => {
                    events.0.push(event);
                    proof {
                        assert(events@ =~= before.push(event@));
                        let tail = events_of(rest@);
                        if tail is Ok {
                            assert(before + (seq![event@] + tail->Ok_0) =~= events@
                                + tail->Ok_0);
                        }
                    }
                    remainder = rest;
                },
                Err(e) => {
                    assert(events_of(remainder@) == Err::<Seq<MTrkEventView>, MTrkEventError>(
                        e,
                    ));
                    assert(events_of(payload@) == Err::<Seq<MTrkEventView>, MTrkEventError>(e));
                    return Err(ChunkError::from(e));
                },
            }
        }
        proof {
            assert(events@ + Seq::<MTrkEventView>::empty() =~= events@);
        }
        Ok((Chunk { events }, rest))
    }
}

/// Every event that is read from a payload is well formed.
pub proof fn lemma_events_read_are_wf(payload: Seq<u8>)
    ensures
        events_of(payload) matches Ok(events) ==> forall|i: int|
            0 <= i < events.len() ==> (#[trigger] events[i]).wf(),
    decreases payload.len(),
{
    if payload.len() > 0 {
        lemma_mtrk_reads_within(payload);
        match mtrk_of(payload) {
            Err(e) => {},
            Ok((event, len)) => {
                lemma_events_read_are_wf(payload.skip(len as int));
            },
        }
    }
}

/// Writing one more event after the others puts its bytes after theirs.
pub proof fn lemma_events_bytes_push(events: Seq<MTrkEventView>, event: MTrkEventView)
    ensures
        events_bytes(events.push(event)) == events_bytes(events) + mtrk_bytes(event),
    decreases events.len(),
{
    let all = events.push(event);
    if events.len() == 0 {
        assert(all.skip(1) =~= Seq::empty());
        assert(events_bytes(all.skip(1)) =~= Seq::empty());
        assert(events_bytes(all) =~= mtrk_bytes(event));
        assert(events_bytes(events) + mtrk_bytes(event) =~= mtrk_bytes(event));
    } else {
        lemma_events_bytes_push(events.skip(1), event);
        assert(all.skip(1) =~= events.skip(1).push(event));
        assert(events_bytes(all) =~= events_bytes(events) + mtrk_bytes(event));
    }
}

/// Reading a payload that opens with the bytes of a well-formed event
/// gives that event, followed by what reading the rest gives; unless the
/// event is a control change and the rest opens with a byte from 120 on.
pub proof fn lemma_events_step(first: MTrkEventView, rest: Seq<u8>)
    requires
        first.wf(),
        first.event.is_control_change() ==> rest.len() == 0 || rest[0] < FIRST_MODE_CODE,
    ensures
        events_of(mtrk_bytes(first) + rest) == after(first, events_of(rest)),
        (mtrk_bytes(first) + rest)[0] == encoding(first.delta_time)[0],
{
    let bytes = mtrk_bytes(first) + rest;
    lemma_mtrk_round_trip(first, rest);
    assert(bytes.skip(mtrk_bytes(first).len() as int) =~= rest);
}

/// Reading the payload written from well-formed events that stand clear
/// of one another gives the events back.
#[verifier::rlimit(30)]
pub proof fn lemma_events_round_trip(events: Seq<MTrkEventView>)
    requires
        forall|i: int| 0 <= i < events.len() ==> (#[trigger] events[i]).wf(),
        stands_clear(events),
    ensures
        events_of(events_bytes(events)) == Ok::<Seq<MTrkEventView>, MTrkEventError>(events),
        events.len() > 0 ==> events_bytes(events).len() > 0 && events_bytes(events)[0]
            == encoding(events[0].delta_time)[0],
    decreases events.len(),
{
    if events.len() == 0 {
        assert(events =~= Seq::empty());
    } else {
        let first = events[0];
        let tail = events.skip(1);
        let rest = events_bytes(tail);
        assert(first.wf());
        assert forall|i: int| 0 <= i < tail.len() implies (#[trigger] tail[i]).wf() by {
            assert(tail[i] == events[i + 1]);
        }
        assert(stands_clear(tail)) by {
            assert forall|i: int| 0 <= i < tail.len() - 1 implies !(#[trigger] tail[i]).event.is_control_change()
                || tail[i + 1].delta_time < FIRST_MODE_CODE by {
                assert(tail[i] == events[i + 1]);
                assert(tail[i + 1] == events[i + 2]);
            }
        }
        lemma_events_round_trip(tail);
        assert(first.event.is_control_change() ==> rest.len() == 0 || rest[0] < FIRST_MODE_CODE) by {
            if tail.len() > 0 && first.event.is_control_change() {
                assert(tail[0] == events[1]);
                assert(events[1].delta_time < FIRST_MODE_CODE);
                assert(encoding(events[1].delta_time)[0] == events[1].delta_time);
            }
            if tail.len() == 0 {
                assert(rest.len() == 0);
            }
        }
        lemma_events_step(first, rest);
        assert(seq![first] + tail =~= events);
    }
}

/// Reading a track chunk written from well-formed events that stand clear
/// of one another, with anything after it, gives the events back and
/// stops where the chunk ends.
pub proof fn lemma_chunk_round_trip(events: Seq<MTrkEventView>, rest: Seq<u8>)
    requires
        forall|i: int| 0 <= i < events.len() ==> (#[trigger] events[i]).wf(),
        stands_clear(events),
        events_bytes(events).len() <= u32::MAX,
    ensures
        chunk_of(chunk_bytes(events) + rest) == Ok::<(Seq<MTrkEventView>, nat), ChunkError>(
            (events, chunk_bytes(events).len()),
        ),
        (chunk_bytes(events) + rest).skip(chunk_bytes(events).len() as int) == rest,
{
    lemma_events_round_trip(events);
    lemma_frame_round_trip(ChunkType::Track, events_bytes(events), rest);
}

impl From<MTrkEventError> for ChunkError {
    /// A fault of a track event, as a fault of the chunk.
    fn from(e: MTrkEventError) -> (wrapped: ChunkError)
        ensures
            wrapped == ChunkError::MTrkEventError(e),
    {
        ChunkError::MTrkEventError(e)
    }
}

impl vstd::std_specs::convert::FromSpecImpl<MTrkEventError> for ChunkError {
    open spec fn obeys_from_spec() -> bool {
        true
    }

    open spec fn from_spec(e: MTrkEventError) -> ChunkError {
        ChunkError::MTrkEventError(e)
    }
}

impl From<EventsList> for Vec<MTrkEvent> {
    /// The events themselves.
    fn from(list: EventsList) -> (events: Vec<MTrkEvent>)
        ensures
            events == list.0,
    {
        list.0
    }
}

impl vstd::std_specs::convert::FromSpecImpl<EventsList> for Vec<MTrkEvent> {
    open spec fn obeys_from_spec() -> bool {
        true
    }

    open spec fn from_spec(list: EventsList) -> Vec<MTrkEvent> {
        list.0
    }
}

} // verus!
