//! Fixed-width big-endian (network order) encoding of protocol fields.
use vstd::prelude::*;

verus! {

/// The unsigned value of the first four bytes of `b`, most significant first.
pub open spec fn u32_be(b: Seq<u8>) -> int {
    b[0] as int * 16777216 + b[1] as int * 65536 + b[2] as int * 256 + b[3] as int
}

/// The two's-complement value of the first two bytes of `b`, most significant first.
pub open spec fn i16_be(b: Seq<u8>) -> int {
    let u = b[0] as int * 256 + b[1] as int;
    if u >= 32768 {
        u - 65536
    } else {
        u
    }
}

/// Encodes `v` as four bytes in network order.
pub fn write_u32(v: u32) -> (r: Vec<u8>)
    ensures
        r@.len() == 4,
        u32_be(r@) == v,
{
    let b0: u8 = (v >> 24u32) as u8;
    let b1: u8 = ((v >> 16u32) & 0xffu32) as u8;
    let b2: u8 = ((v >> 8u32) & 0xffu32) as u8;
    let b3: u8 = (v & 0xffu32) as u8;
    assert(b0 as u32 * 16777216 + b1 as u32 * 65536 + b2 as u32 * 256 + b3 as u32 == v) by (bit_vector)
        requires
            b0 == (v >> 24u32) as u8,
            b1 == ((v >> 16u32) & 0xffu32) as u8,
            b2 == ((v >> 8u32) & 0xffu32) as u8,
            b3 == (v & 0xffu32) as u8,
    ;
    let r = vec![b0, b1, b2, b3];
    r
}

/// Reads the first four bytes of `b` in network order; `None` when `b` is shorter.
pub fn read_u32(b: &[u8]) -> (r: Option<u32>)
    ensures
        b@.len() < 4 ==> r is None,
        b@.len() >= 4 ==> r == Some(u32_be(b@) as u32) && u32_be(b@) <= u32::MAX,
{
    if b.len() < 4 {
        return None;
    }
    let v: u32 = b[0] as u32 * 16777216 + b[1] as u32 * 65536 + b[2] as u32 * 256 + b[3] as u32;
    Some(v)
}

/// Encodes `v` as two bytes in network order.
pub fn write_i16(v: i16) -> (r: Vec<u8>)
    ensures
        r@.len() == 2,
        i16_be(r@) == v,
{
    let u: u16 = v as u16;
    let b0: u8 = (u >> 8u16) as u8;
    let b1: u8 = (u & 0xffu16) as u8;
    assert(b0 as u16 * 256 + b1 as u16 == u) by (bit_vector)
        requires
            b0 == (u >> 8u16) as u8,
            b1 == (u & 0xffu16) as u8,
    ;
    assert(u == (if v >= 0 { v as int } else { v as int + 65536 })) by (bit_vector)
        requires
            u == v as u16,
    ;
    let r = vec![b0, b1];
    r
}

/// Reads two bytes of `b` at offset `at` as a signed value in network order;
/// `None` when fewer than two bytes stand there.
pub fn read_i16(b: &[u8], at: usize) -> (r: Option<i16>)
    ensures
        b@.len() < at + 2 ==> r is None,
        b@.len() >= at + 2 ==> r == Some(i16_be(b@.subrange(at as int, at + 2)) as i16)
            && i16::MIN <= i16_be(b@.subrange(at as int, at + 2)) <= i16::MAX,
{
    if b.len() < 2 || at > b.len() - 2 {
        return None;
    }
    let u: u16 = b[at] as u16 * 256 + b[at + 1] as u16;
    let v: i16 = u as i16;
    assert(v == (if u >= 32768 { u as int - 65536 } else { u as int })) by (bit_vector)
        requires
            v == u as i16,
    ;
    Some(v)
}

} // verus!
