//! Counts that are never zero: the number of tracks, the ticks of a quarter
//! note, the ticks of a frame.

use vstd::prelude::*;

verus! {

/// A 16-bit integer other than zero. Its view is the integer.
#[derive(Debug, PartialEq, Eq, Clone, Copy, PartialOrd, Ord, Hash)]
pub struct NonZeroU16 {
    value: u16,
}

impl View for NonZeroU16 {
    type V = u16;

    closed spec fn view(&self) -> u16 {
        self.value
    }
}

impl NonZeroU16 {
    #[verifier::type_invariant]
    spec fn not_zero(&self) -> bool {
        self.value != 0
    }

    /// The count whose view is `n`.
    pub closed spec fn of_view(n: u16) -> NonZeroU16 {
        NonZeroU16 { value: n }
    }

    /// The view of that value is `n` again.
    pub proof fn lemma_of_view(n: u16)
        ensures
            NonZeroU16::of_view(n)@ == n,
    {
    }

    /// Makes a count of `n`, unless `n` is zero.
    pub fn new(n: u16) -> (r: Option<NonZeroU16>)
        ensures
            n != 0 ==> r == Some(NonZeroU16::of_view(n)) && r->Some_0@ == n,
            n == 0 ==> r is None,
    {
        if n == 0 {
            None
        } else {
            Some(NonZeroU16 { value: n })
        }
    }

    /// The count as a plain integer.
    pub fn get(&self) -> (n: u16)
        ensures
            n == self@,
            n != 0,
    {
        proof {
            use_type_invariant(self);
        }
        self.value
    }
}

/// An 8-bit integer other than zero. Its view is the integer.
#[derive(Debug, PartialEq, Eq, Clone, Copy, PartialOrd, Ord, Hash)]
pub struct NonZeroU8 {
    value: u8,
}

impl View for NonZeroU8 {
    type V = u8;

    closed spec fn view(&self) -> u8 {
        self.value
    }
}

impl NonZeroU8 {
    #[verifier::type_invariant]
    spec fn not_zero(&self) -> bool {
        self.value != 0
    }

    /// The count whose view is `n`.
    pub closed spec fn of_view(n: u8) -> NonZeroU8 {
        NonZeroU8 { value: n }
    }

    /// The view of that value is `n` again.
    pub proof fn lemma_of_view(n: u8)
        ensures
            NonZeroU8::of_view(n)@ == n,
    {
    }

    /// Makes a count of `n`, unless `n` is zero.
    pub fn new(n: u8) -> (r: Option<NonZeroU8>)
        ensures
            n != 0 ==> r == Some(NonZeroU8::of_view(n)) && r->Some_0@ == n,
            n == 0 ==> r is None,
    {
        if n == 0 {
            None
        } else {
            Some(NonZeroU8 { value: n })
        }
    }

    /// The count as a plain integer.
    pub fn get(&self) -> (n: u8)
        ensures
            n == self@,
            n != 0,
    {
        proof {
            use_type_invariant(self);
        }
        self.value
    }
}

} // verus!
