//! Variable-length quantities: integers of up to 28 bits written as one to
//! four bytes, seven bits per byte, most significant group first. Every byte
//! but the last carries a continuation flag in its top bit.

use vstd::prelude::*;
use vstd::string::*;

verus! {

/// The largest integer a variable-length quantity can hold.
pub const MAX_REPRESENTABLE: u32 = 0x0FFF_FFFF;

/// A variable-length quantity. Its view is the integer it stands for.
#[derive(Debug, PartialEq, Eq, Clone, Copy, PartialOrd, Ord)]
pub struct Vlq {
    value: u32,
}

/// Why no quantity can be made or read.
#[derive(Debug, PartialEq, Eq, Clone, Copy)]
pub enum VLQError {
    /// The integer needs more than 28 bits.
    OverMaxSize,
    /// The buffer ended before a byte without the continuation flag.
    NotEnoughBytes,
}

/// The number of bytes in the encoding of `n`.
pub open spec fn encoded_len(n: nat) -> nat {
    if n < 0x80 {
        1
    } else if n < 0x4000 {
        2
    } else if n < 0x20_0000 {
        3
    } else {
        4
    }
}

/// The canonical encoding of `n`: as few seven-bit groups as hold it, the
/// most significant first, each but the last with the top bit set.
pub open spec fn encoding(n: nat) -> Seq<u8>
    recommends
        n <= MAX_REPRESENTABLE,
{
    if n < 0x80 {
        seq![n as u8]
    } else if n < 0x4000 {
        seq![(0x80 + n / 0x80) as u8, (n % 0x80) as u8]
    } else if n < 0x20_0000 {
        seq![(0x80 + n / 0x80 / 0x80) as u8, (0x80 + n / 0x80 % 0x80) as u8, (n % 0x80) as u8]
    } else {
        seq![
            (0x80 + n / 0x80 / 0x80 / 0x80) as u8,
            (0x80 + n / 0x80 / 0x80 % 0x80) as u8,
            (0x80 + n / 0x80 % 0x80) as u8,
            (n % 0x80) as u8,
        ]
    }
}

/// The number of bytes a decoder reads from the front of `bytes`: up to the
/// first byte without the continuation flag, and never more than four.
/// `None` when the buffer ends first.
pub open spec fn decoded_len(bytes: Seq<u8>) -> Option<nat> {
    if bytes.len() >= 1 && bytes[0] < 0x80 {
        Some(1)
    } else if bytes.len() >= 2 && bytes[1] < 0x80 {
        Some(2)
    } else if bytes.len() >= 3 && bytes[2] < 0x80 {
        Some(3)
    } else if bytes.len() >= 4 {
        Some(4)
    } else {
        None
    }
}

/// The integer that the first `len` bytes of `bytes` spell, seven bits
/// each, the first byte holding the most significant group. A quantity has
/// at most four bytes.
pub open spec fn decoded_value(bytes: Seq<u8>, len: nat) -> nat
    recommends
        len <= 4,
        len <= bytes.len(),
{
    if len == 0 {
        0
    } else if len == 1 {
        (bytes[0] % 0x80) as nat
    } else if len == 2 {
        ((bytes[0] % 0x80) * 0x80 + bytes[1] % 0x80) as nat
    } else if len == 3 {
        (((bytes[0] % 0x80) * 0x80 + bytes[1] % 0x80) * 0x80 + bytes[2] % 0x80) as nat
    } else {
        ((((bytes[0] % 0x80) * 0x80 + bytes[1] % 0x80) * 0x80 + bytes[2] % 0x80) * 0x80
            + bytes[3] % 0x80) as nat
    }
}

/// One past the largest integer that `len` seven-bit groups can spell.
pub open spec fn capacity(len: nat) -> nat {
    if len == 0 {
        1
    } else if len == 1 {
        0x80
    } else if len == 2 {
        0x4000
    } else if len == 3 {
        0x20_0000
    } else {
        0x1000_0000
    }
}

impl View for Vlq {
    type V = nat;

    closed spec fn view(&self) -> nat {
        self.value as nat
    }
}

impl Vlq {
    #[verifier::type_invariant]
    spec fn in_range(&self) -> bool {
        self.value <= MAX_REPRESENTABLE
    }

    /// The quantity whose view is `n`.
    pub closed spec fn of_view(n: nat) -> Vlq {
        Vlq { value: n as u32 }
    }

    /// The view of that value is `n` again.
    pub proof fn lemma_of_view(n: nat)
        requires
            n <= u32::MAX,
        ensures
            Vlq::of_view(n)@ == n,
    {
    }

    /// Makes the quantity that stands for `n`, where `n` is known to fit.
    pub(crate) fn new(n: u32) -> (vlq: Vlq)
        requires
            n <= MAX_REPRESENTABLE,
        ensures
            vlq@ == n,
    {
        Vlq { value: n }
    }

    /// The integer this quantity stands for.
    pub fn get(&self) -> (n: u32)
        ensures
            n == self@,
            n <= MAX_REPRESENTABLE,
    {
        proof {
            use_type_invariant(self);
        }
        self.value
    }

    /// The bytes of this quantity as they stand in a file.
    pub fn to_bytes(&self) -> (bytes: Vec<u8>)
        ensures
            bytes@ == encoding(self@),
            self@ <= MAX_REPRESENTABLE,
    {
        proof {
            use_type_invariant(self);
        }
        let n: u32 = self.value;
        let mut bytes: Vec<u8> = Vec::with_capacity(4);
        if n >= 0x20_0000 {
            bytes.push((0x80 + n / 0x80 / 0x80 / 0x80) as u8);
        }
        if n >= 0x4000 {
            bytes.push((0x80 + n / 0x80 / 0x80 % 0x80) as u8);
        }
        if n >= 0x80 {
            bytes.push((0x80 + n / 0x80 % 0x80) as u8);
        }
        bytes.push((n % 0x80) as u8);
        assert(bytes@ =~= encoding(self@));
        bytes
    }

    /// Reads one quantity from the front of `bytes` and hands back what
    /// follows it. A fourth byte ends the quantity whatever its top bit says.
    pub fn parse(bytes: &[u8]) -> (r: Result<(Vlq, &[u8]), VLQError>)
        ensures
            match r {
                Ok((vlq, rest)) => {
                    &&& decoded_len(bytes@) matches Some(len)
                    &&& vlq@ == decoded_value(bytes@, len)
                    &&& vlq@ <= MAX_REPRESENTABLE
                    &&& rest@ == bytes@.skip(len as int)
                },
                Err(e) => decoded_len(bytes@) is None && e == VLQError::NotEnoughBytes,
            },
    {
        let mut value: u32 = 0;
        let mut i: usize = 0;
        while i < 4
            invariant_except_break
                forall|j: int| 0 <= j < i ==> bytes@[j] >= 0x80,
            invariant
                i <= 4,
                i <= bytes@.len(),
                value as nat == decoded_value(bytes@, i as nat),
                value < capacity(i as nat),
            ensures
                decoded_len(bytes@) == Some(i as nat),
            decreases 4 - i,
        {
            if i >= bytes.len() {
                return Err(VLQError::NotEnoughBytes);
            }
            let byte: u8 = bytes[i];
            value = value * 0x80 + (byte % 0x80) as u32;
            i += 1;
            if byte < 0x80 {
                break;
            }
        }
        let rest = vstd::slice::slice_subrange(bytes, i, bytes.len());
        Ok((Vlq { value }, rest))
    }
}

/// The sixteen hexadecimal digits, upper case.
pub open spec fn hex_digits() -> Seq<char> {
    seq!['0', '1', '2', '3', '4', '5', '6', '7', '8', '9', 'A', 'B', 'C', 'D', 'E', 'F']
}

/// The integer `n` as text: `0x` and eight hexadecimal digits, upper case,
/// with zeros in front where `n` is short.
pub open spec fn hex_text(n: nat) -> Seq<char>
    recommends
        n <= u32::MAX,
{
    seq![
        '0',
        'x',
        hex_digits()[(n / 0x1000_0000 % 0x10) as int],
        hex_digits()[(n / 0x100_0000 % 0x10) as int],
        hex_digits()[(n / 0x10_0000 % 0x10) as int],
        hex_digits()[(n / 0x1_0000 % 0x10) as int],
        hex_digits()[(n / 0x1000 % 0x10) as int],
        hex_digits()[(n / 0x100 % 0x10) as int],
        hex_digits()[(n / 0x10 % 0x10) as int],
        hex_digits()[(n % 0x10) as int],
    ]
}

/// Writes the hexadecimal digit of `d` at the end of `text`.
fn push_hex_digit(text: &mut String, d: u32)
    requires
        d < 0x10,
    ensures
        final(text)@ == old(text)@.push(hex_digits()[d as int]),
{
    let digits = "0123456789ABCDEF";
    proof {
        reveal_strlit("0123456789ABCDEF");
        assert(digits@ =~= hex_digits());
        assert(digits.is_ascii());
    }
    let digit = digits.substring_ascii(d as usize, d as usize + 1);
    text.append(digit);
    proof {
        assert(digit@ =~= seq![hex_digits()[d as int]]);
        assert(final(text)@ =~= old(text)@.push(hex_digits()[d as int]));
    }
}

impl Vlq {
    /// This quantity as text: its integer in hexadecimal, as `hex_text`
    /// lays it out.
    pub fn to_string(&self) -> (text: String)
        ensures
            text@ == hex_text(self@),
    {
        let n: u32 = self.value;
        let mut text = String::from_str("0x");
        proof {
            reveal_strlit("0x");
        }
        push_hex_digit(&mut text, n / 0x1000_0000 % 0x10);
        push_hex_digit(&mut text, n / 0x100_0000 % 0x10);
        push_hex_digit(&mut text, n / 0x10_0000 % 0x10);
        push_hex_digit(&mut text, n / 0x1_0000 % 0x10);
        push_hex_digit(&mut text, n / 0x1000 % 0x10);
        push_hex_digit(&mut text, n / 0x100 % 0x10);
        push_hex_digit(&mut text, n / 0x10 % 0x10);
        push_hex_digit(&mut text, n % 0x10);
        assert(text@ =~= hex_text(self@));
        text
    }
}

impl TryFrom<u32> for Vlq {
    type Error = VLQError;

    /// Makes the quantity that stands for `n`, if `n` fits in 28 bits.
    fn try_from(n: u32) -> (r: Result<Vlq, VLQError>)
        ensures
            n <= MAX_REPRESENTABLE ==> r is Ok && r->Ok_0@ == n,
            n > MAX_REPRESENTABLE ==> r == Err::<Vlq, VLQError>(VLQError::OverMaxSize),
    {
        if n > MAX_REPRESENTABLE {
            Err(VLQError::OverMaxSize)
        } else {
            Ok(Vlq { value: n })
        }
    }
}

impl vstd::std_specs::convert::TryFromSpecImpl<u32> for Vlq {
    open spec fn obeys_try_from_spec() -> bool {
        true
    }

    open spec fn try_from_spec(n: u32) -> Result<Vlq, VLQError> {
        if n <= MAX_REPRESENTABLE {
            Ok(Vlq::of_view(n as nat))
        } else {
            Err(VLQError::OverMaxSize)
        }
    }
}

impl From<Vlq> for u32 {
    /// The integer that `n` stands for.
    fn from(n: Vlq) -> (value: u32)
        ensures
            value == n@,
            value <= MAX_REPRESENTABLE,
    {
        n.get()
    }
}

impl vstd::std_specs::convert::FromSpecImpl<Vlq> for u32 {
    open spec fn obeys_from_spec() -> bool {
        true
    }

    open spec fn from_spec(n: Vlq) -> u32 {
        n@ as u32
    }
}

impl From<&Vlq> for u32 {
    /// The integer that `n` stands for.
    fn from(n: &Vlq) -> (value: u32)
        ensures
            value == n@,
            value <= MAX_REPRESENTABLE,
    {
        n.get()
    }
}

impl vstd::std_specs::convert::FromSpecImpl<&Vlq> for u32 {
    open spec fn obeys_from_spec() -> bool {
        true
    }

    open spec fn from_spec(n: &Vlq) -> u32 {
        n@ as u32
    }
}

impl IntoIterator for Vlq {
    type Item = u8;

    type IntoIter = std::vec::IntoIter<u8>;

    /// Walks the bytes of this quantity in file order.
    fn into_iter(self) -> (iter: std::vec::IntoIter<u8>)
        ensures
            vstd::std_specs::iter::IteratorSpec::remaining(&iter) == encoding(self@),
    {
        self.to_bytes().into_iter()
    }
}

/// What the first `len` bytes spell is below the capacity of `len` groups:
/// whatever four bytes hold, what they spell fits in 28 bits.
pub proof fn lemma_decoded_value_bound(bytes: Seq<u8>, len: nat)
    ensures
        decoded_value(bytes, len) < capacity(len),
        decoded_value(bytes, len) <= MAX_REPRESENTABLE,
{
}

/// No encoding is longer than it must be: whatever bytes spell an integer,
/// the integer's own encoding is no longer than they are.
pub proof fn lemma_encoding_is_minimal(bytes: Seq<u8>, len: nat)
    requires
        1 <= len <= 4,
    ensures
        encoded_len(decoded_value(bytes, len)) <= len,
{
    lemma_decoded_value_bound(bytes, len);
}

/// Decoding the encoding of `n`, with anything after it, gives `n` back and
/// stops exactly where the encoding ends.
#[verifier::rlimit(30)]
pub proof fn lemma_round_trip(n: nat, rest: Seq<u8>)
    requires
        n <= MAX_REPRESENTABLE,
    ensures
        encoding(n).len() == encoded_len(n),
        decoded_len(encoding(n) + rest) == Some(encoded_len(n)),
        decoded_value(encoding(n) + rest, encoded_len(n)) == n,
        (encoding(n) + rest).skip(encoded_len(n) as int) == rest,
{
    let bytes = encoding(n) + rest;
    let q1 = n / 0x80;
    let q2 = q1 / 0x80;
    let q3 = q2 / 0x80;
    assert(bytes.skip(encoded_len(n) as int) =~= rest);
    if n < 0x80 {
        assert(bytes[0] == n);
    } else if n < 0x4000 {
        assert(bytes[0] == 0x80 + q1 && bytes[1] == n % 0x80);
    } else if n < 0x20_0000 {
        assert(bytes[0] == 0x80 + q2 && bytes[1] == 0x80 + q1 % 0x80 && bytes[2] == n % 0x80);
    } else {
        assert(bytes[0] == 0x80 + q3 && bytes[1] == 0x80 + q2 % 0x80 && bytes[2] == 0x80 + q1
            % 0x80 && bytes[3] == n % 0x80);
    }
}

} // verus!
