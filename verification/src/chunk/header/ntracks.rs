//! The number of tracks that a header declares.

use vstd::prelude::*;
use crate::endian::{be16_bytes, u16_to_be};

verus! {

/// The number of tracks a header declares: at least one.
#[derive(Clone, Copy, PartialEq, Eq, Debug)]
pub struct NTracks {
    count: u16,
}

/// Why an integer is no number of tracks.
#[derive(Debug, PartialEq, Eq, Clone, Copy)]
pub enum NTracksError {
    NumberOfTracksMustBeGreaterThanZero,
}

impl View for NTracks {
    type V = u16;

    closed spec fn view(&self) -> u16 {
        self.count
    }
}

impl NTracks {
    #[verifier::type_invariant]
    spec fn not_zero(&self) -> bool {
        self.count != 0
    }

    /// The count whose view is `value`.
    pub closed spec fn of_view(value: u16) -> NTracks {
        NTracks { count: value }
    }

    /// The view of that value is `value` again.
    pub proof fn lemma_of_view(value: u16)
        ensures
            NTracks::of_view(value)@ == value,
    {
    }

    /// The count as it stands in a header, high byte first.
    pub fn to_be_bytes(&self) -> (bytes: [u8; 2])
        ensures
            bytes@ == be16_bytes(self@),
            self@ != 0,
    {
        proof {
            use_type_invariant(self);
        }
        u16_to_be(self.count)
    }
}

impl TryFrom<u16> for NTracks {
    type Error = NTracksError;

    /// Makes a count of `value` tracks, unless `value` is zero.
    fn try_from(value: u16) -> (r: Result<NTracks, NTracksError>)
        ensures
            match r {
                Ok(n) => value != 0 && n@ == value,
                Err(e) => value == 0 && e == NTracksError::NumberOfTracksMustBeGreaterThanZero,
            },
    {
        if value == 0 {
            Err(NTracksError::NumberOfTracksMustBeGreaterThanZero)
        } else {
            Ok(NTracks { count: value })
        }
    }
}

impl vstd::std_specs::convert::TryFromSpecImpl<u16> for NTracks {
    open spec fn obeys_try_from_spec() -> bool {
        true
    }

    open spec fn try_from_spec(value: u16) -> Result<NTracks, NTracksError> {
        if value != 0 {
            Ok(NTracks::of_view(value))
        } else {
            Err(NTracksError::NumberOfTracksMustBeGreaterThanZero)
        }
    }
}

} // verus!
