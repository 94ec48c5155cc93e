//! Integers as a file holds them: big-endian in two, three or four bytes,
//! and signed in one byte of two's complement.

use vstd::prelude::*;

verus! {

/// The 16-bit integer whose high byte is `hi` and whose low byte is `lo`.
pub open spec fn be16(hi: u8, lo: u8) -> u16 {
    (hi * 0x100 + lo) as u16
}

/// The two bytes of `n`, high byte first.
pub open spec fn be16_bytes(n: u16) -> Seq<u8> {
    seq![(n / 0x100) as u8, (n % 0x100) as u8]
}

/// The 24-bit integer spelled by three bytes, most significant first.
pub open spec fn be24(b0: u8, b1: u8, b2: u8) -> u32 {
    (b0 * 0x1_0000 + b1 * 0x100 + b2) as u32
}

/// The three low bytes of `n`, most significant first.
pub open spec fn be24_bytes(n: u32) -> Seq<u8> {
    seq![((n / 0x1_0000) % 0x100) as u8, ((n / 0x100) % 0x100) as u8, (n % 0x100) as u8]
}

/// The 32-bit integer spelled by four bytes, most significant first.
pub open spec fn be32(b0: u8, b1: u8, b2: u8, b3: u8) -> u32 {
    (b0 * 0x100_0000 + b1 * 0x1_0000 + b2 * 0x100 + b3) as u32
}

/// The four bytes of `n`, most significant first.
pub open spec fn be32_bytes(n: u32) -> Seq<u8> {
    seq![
        (n / 0x100_0000) as u8,
        ((n / 0x1_0000) % 0x100) as u8,
        ((n / 0x100) % 0x100) as u8,
        (n % 0x100) as u8,
    ]
}

/// The signed integer that the byte `b` holds in two's complement.
pub open spec fn signed(b: u8) -> int {
    if b >= 0x80 {
        b - 0x100
    } else {
        b as int
    }
}

/// Reads the byte `b` as a signed integer.
pub fn to_signed(b: u8) -> (s: i8)
    ensures
        s == signed(b),
{
    if b >= 0x80 {
        (b as i16 - 0x100) as i8
    } else {
        b as i8
    }
}

/// Joins two bytes, high byte first.
pub fn u16_from_be(hi: u8, lo: u8) -> (n: u16)
    ensures
        n == be16(hi, lo),
{
    (hi as u16) * 0x100 + (lo as u16)
}

/// Splits `n` into two bytes, high byte first.
pub fn u16_to_be(n: u16) -> (bytes: [u8; 2])
    ensures
        bytes@ == be16_bytes(n),
{
    let bytes: [u8; 2] = [(n / 0x100) as u8, (n % 0x100) as u8];
    assert(bytes@ =~= be16_bytes(n));
    bytes
}

/// Joins four bytes, most significant first.
pub fn u32_from_be(b0: u8, b1: u8, b2: u8, b3: u8) -> (n: u32)
    ensures
        n == be32(b0, b1, b2, b3),
{
    (b0 as u32) * 0x100_0000 + (b1 as u32) * 0x1_0000 + (b2 as u32) * 0x100 + (b3 as u32)
}

/// Splits `n` into four bytes, most significant first.
pub fn u32_to_be(n: u32) -> (bytes: [u8; 4])
    ensures
        bytes@ == be32_bytes(n),
{
    let bytes: [u8; 4] = [
        (n / 0x100_0000) as u8,
        ((n / 0x1_0000) % 0x100) as u8,
        ((n / 0x100) % 0x100) as u8,
        (n % 0x100) as u8,
    ];
    assert(bytes@ =~= be32_bytes(n));
    bytes
}

/// Splitting an integer into bytes and joining them again changes nothing,
/// in either direction.
pub proof fn lemma_be16_round_trip(n: u16, hi: u8, lo: u8)
    ensures
        be16(be16_bytes(n)[0], be16_bytes(n)[1]) == n,
        be16_bytes(be16(hi, lo)) == seq![hi, lo],
{
    assert(be16_bytes(be16(hi, lo)) =~= seq![hi, lo]);
}

/// Splitting a 32-bit integer into bytes and joining them again changes
/// nothing.
pub proof fn lemma_be32_round_trip(n: u32)
    ensures
        be32(be32_bytes(n)[0], be32_bytes(n)[1], be32_bytes(n)[2], be32_bytes(n)[3]) == n,
{
}

} // verus!
