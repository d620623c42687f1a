//! Little-endian integers in byte sequences.

use bytes::Buf;
use vstd::prelude::*;

verus! {

/// The value of the two bytes of `s` at `at`, read as a little-endian
/// unsigned integer.
pub open spec fn le_u16_at(s: Seq<u8>, at: int) -> int {
    s[at] + 256 * s[at + 1]
}

/// The value of the four bytes of `s` at `at`, read as a little-endian
/// unsigned integer.
pub open spec fn le_u32_at(s: Seq<u8>, at: int) -> int {
    s[at] + 256 * s[at + 1] + 65536 * s[at + 2] + 16777216 * s[at + 3]
}

/// The value of the four bytes of `s` at `at`, read as a little-endian
/// two's-complement integer.
pub open spec fn le_i32_at(s: Seq<u8>, at: int) -> int {
    if le_u32_at(s, at) >= 0x8000_0000 {
        le_u32_at(s, at) - 0x1_0000_0000
    } else {
        le_u32_at(s, at)
    }
}

/// The value of a four-byte sequence read as a little-endian unsigned
/// integer.
pub open spec fn le_u32(s: Seq<u8>) -> int {
    le_u32_at(s, 0)
}

/// Reads a four-byte slice as a little-endian `u32`.
pub fn b2u32(slice: &[u8]) -> (r: u32)
    requires
        slice@.len() == 4,
    ensures
        r == le_u32(slice@),
{
    let b0: u32 = slice[0] as u32;
    let b1: u32 = slice[1] as u32;
    let b2: u32 = slice[2] as u32;
    let b3: u32 = slice[3] as u32;
    b0 + 256 * b1 + 65536 * b2 + 16777216 * b3
}

/// `bytes::Buf::get_u8` on a byte slice: hands out the first byte and the
/// slice that follows it.
#[verifier::external_body]
pub(crate) fn take_u8<'a>(data: &'a [u8]) -> (r: (u8, &'a [u8]))
    requires
        data@.len() >= 1,
    ensures
        r.0 == data@[0],
        r.1@ == data@.subrange(1, data@.len() as int),
{
    let mut buf = data;
    let value = buf.get_u8();
    (value, buf)
}

/// `bytes::Buf::get_u16_le` on a byte slice: hands out the first two bytes
/// as a little-endian integer and the slice that follows them.
#[verifier::external_body]
pub(crate) fn take_u16_le<'a>(data: &'a [u8]) -> (r: (u16, &'a [u8]))
    requires
        data@.len() >= 2,
    ensures
        r.0 == le_u16_at(data@, 0),
        r.1@ == data@.subrange(2, data@.len() as int),
{
    let mut buf = data;
    let value = buf.get_u16_le();
    (value, buf)
}

/// `bytes::Buf::get_u32_le` on a byte slice: hands out the first four bytes
/// as a little-endian integer and the slice that follows them.
#[verifier::external_body]
pub(crate) fn take_u32_le<'a>(data: &'a [u8]) -> (r: (u32, &'a [u8]))
    requires
        data@.len() >= 4,
    ensures
        r.0 == le_u32_at(data@, 0),
        r.1@ == data@.subrange(4, data@.len() as int),
{
    let mut buf = data;
    let value = buf.get_u32_le();
    (value, buf)
}

/// `bytes::Buf::get_i32_le` on a byte slice: hands out the first four bytes
/// as a little-endian two's-complement integer and the slice that follows
/// them.
#[verifier::external_body]
pub(crate) fn take_i32_le<'a>(data: &'a [u8]) -> (r: (i32, &'a [u8]))
    requires
        data@.len() >= 4,
    ensures
        r.0 == le_i32_at(data@, 0),
        r.1@ == data@.subrange(4, data@.len() as int),
{
    let mut buf = data;
    let value = buf.get_i32_le();
    (value, buf)
}

} // verus!
