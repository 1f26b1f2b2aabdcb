use byteorder::{BigEndian, ByteOrder, LittleEndian};
use vstd::prelude::*;

verus! {

/// The number that the first two bytes of `b` spell, least significant first.
pub open spec fn spec_u16_le(b: Seq<u8>) -> u16
    recommends
        b.len() >= 2,
{
    (b[0] as int + b[1] as int * 0x100) as u16
}

/// The number that the first four bytes of `b` spell, least significant first.
pub open spec fn spec_u32_le(b: Seq<u8>) -> u32
    recommends
        b.len() >= 4,
{
    (b[0] as int + b[1] as int * 0x100 + b[2] as int * 0x1_0000 + b[3] as int * 0x100_0000) as u32
}

/// The number that the first four bytes of `b` spell, most significant first.
pub open spec fn spec_u32_be(b: Seq<u8>) -> u32
    recommends
        b.len() >= 4,
{
    (b[0] as int * 0x100_0000 + b[1] as int * 0x1_0000 + b[2] as int * 0x100 + b[3] as int) as u32
}

/// The number that the first two bytes of `b` spell, most significant first.
pub open spec fn spec_u16_be(b: Seq<u8>) -> u16
    recommends
        b.len() >= 2,
{
    (b[0] as int * 0x100 + b[1] as int) as u16
}

/// The four bytes that spell `x`, most significant first.
pub open spec fn spec_be_bytes(x: u32) -> Seq<u8> {
    seq![
        (x / 0x100_0000) as u8,
        (x / 0x1_0000 % 0x100) as u8,
        (x / 0x100 % 0x100) as u8,
        (x % 0x100) as u8,
    ]
}

/// Reading the bytes that spell a number gives the number back, whatever
/// follows them.
pub proof fn lemma_be_bytes_round_trip(x: u32, tail: Seq<u8>)
    ensures
        spec_u32_be(spec_be_bytes(x) + tail) == x,
{
    let b = spec_be_bytes(x) + tail;
    assert(b[0] == (x / 0x100_0000) as u8);
    assert(b[1] == (x / 0x1_0000 % 0x100) as u8);
    assert(b[2] == (x / 0x100 % 0x100) as u8);
    assert(b[3] == (x % 0x100) as u8);
}

/// Calls `<LittleEndian as ByteOrder>::read_u16` of byteorder, which builds
/// the result from the first two bytes of the slice with `u16::from_le_bytes`
/// and panics on a shorter slice.
#[verifier::external_body]
pub(crate) fn u16_le(buf: &[u8]) -> (r: u16)
    requires
        buf@.len() >= 2,
    ensures
        r == spec_u16_le(buf@),
{
    LittleEndian::read_u16(buf)
}

/// Calls `<BigEndian as ByteOrder>::read_u16` of byteorder, which builds the
/// result from the first two bytes of the slice with `u16::from_be_bytes` and
/// panics on a shorter slice.
#[verifier::external_body]
pub(crate) fn u16_be(buf: &[u8]) -> (r: u16)
    requires
        buf@.len() >= 2,
    ensures
        r == spec_u16_be(buf@),
{
    BigEndian::read_u16(buf)
}

/// Calls `<LittleEndian as ByteOrder>::read_u32` of byteorder, which builds
/// the result from the first four bytes of the slice with `u32::from_le_bytes`
/// and panics on a shorter slice.
#[verifier::external_body]
pub(crate) fn u32_le(buf: &[u8]) -> (r: u32)
    requires
        buf@.len() >= 4,
    ensures
        r == spec_u32_le(buf@),
{
    LittleEndian::read_u32(buf)
}

/// Calls `<BigEndian as ByteOrder>::read_u32` of byteorder, which builds the
/// result from the first four bytes of the slice with `u32::from_be_bytes` and
/// panics on a shorter slice.
#[verifier::external_body]
pub(crate) fn u32_be(buf: &[u8]) -> (r: u32)
    requires
        buf@.len() >= 4,
    ensures
        r == spec_u32_be(buf@),
{
    BigEndian::read_u32(buf)
}

} // verus!
