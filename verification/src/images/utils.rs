//! Big-endian integer assembly from byte groups.
use vstd::prelude::*;

verus! {

/// The unsigned value of two bytes read most significant first.
pub open spec fn be_u16(b0: u8, b1: u8) -> int {
    b0 * 256 + b1
}

/// The unsigned value of four bytes read most significant first.
pub open spec fn be_u32(b0: u8, b1: u8, b2: u8, b3: u8) -> int {
    b0 * 16777216 + b1 * 65536 + b2 * 256 + b3
}

/// The two's-complement value of two bytes read most significant first.
pub open spec fn be_i16(b0: u8, b1: u8) -> int {
    if b0 < 128 {
        be_u16(b0, b1)
    } else {
        be_u16(b0, b1) - 65536
    }
}

/// The two's-complement value of four bytes read most significant first.
pub open spec fn be_i32(b0: u8, b1: u8, b2: u8, b3: u8) -> int {
    if b0 < 128 {
        be_u32(b0, b1, b2, b3)
    } else {
        be_u32(b0, b1, b2, b3) - 4294967296
    }
}

/// Assembles a `u16` from two bytes, the first being the most significant.
pub fn u16_from_bytes(bytes: [u8; 2]) -> (r: u16)
    ensures
        r == be_u16(bytes[0], bytes[1]),
{
    let b0 = bytes[0];
    let b1 = bytes[1];
    let hi: u16 = (b0 as u16) << 8;
    let lo: u16 = (b1 as u16) << 0;
    assert(hi == b0 * 256 && lo == b1) by (bit_vector)
        requires
            hi == (b0 as u16) << 8,
            lo == (b1 as u16) << 0,
    ;
    hi + lo
}

/// Assembles a `u32` from four bytes, the first being the most significant.
pub fn u32_from_bytes(bytes: [u8; 4]) -> (r: u32)
    ensures
        r == be_u32(bytes[0], bytes[1], bytes[2], bytes[3]),
{
    let b0 = bytes[0];
    let b1 = bytes[1];
    let b2 = bytes[2];
    let b3 = bytes[3];
    let p0: u32 = (b0 as u32) << 24;
    let p1: u32 = (b1 as u32) << 16;
    let p2: u32 = (b2 as u32) << 8;
    let p3: u32 = (b3 as u32) << 0;
    assert(p0 == b0 * 16777216 && p1 == b1 * 65536 && p2 == b2 * 256 && p3 == b3) by (bit_vector)
        requires
            p0 == (b0 as u32) << 24,
            p1 == (b1 as u32) << 16,
            p2 == (b2 as u32) << 8,
            p3 == (b3 as u32) << 0,
    ;
    p0 + p1 + p2 + p3
}

/// Assembles an `i16` from two bytes, the first being the most significant,
/// read as two's complement.
pub fn _i16_from_bytes(bytes: [u8; 2]) -> (r: i16)
    ensures
        r == be_i16(bytes[0], bytes[1]),
{
    let b0 = bytes[0];
    let b1 = bytes[1];
    let hi: i16 = (b0 as i16) << 8;
    let lo: i16 = (b1 as i16) << 0;
    assert(lo == b1 && (b0 < 128 ==> hi == b0 * 256) && (b0 >= 128 ==> hi == b0 * 256 - 65536))
        by (bit_vector)
        requires
            hi == (b0 as i16) << 8,
            lo == (b1 as i16) << 0,
    ;
    hi + lo
}

/// Assembles an `i32` from four bytes, the first being the most significant,
/// read as two's complement.
pub fn _i32_from_bytes(bytes: [u8; 4]) -> (r: i32)
    ensures
        r == be_i32(bytes[0], bytes[1], bytes[2], bytes[3]),
{
    let b0 = bytes[0];
    let b1 = bytes[1];
    let b2 = bytes[2];
    let b3 = bytes[3];
    let p0: i32 = (b0 as i32) << 24;
    let p1: i32 = (b1 as i32) << 16;
    let p2: i32 = (b2 as i32) << 8;
    let p3: i32 = (b3 as i32) << 0;
    assert(p1 == b1 * 65536 && p2 == b2 * 256 && p3 == b3 && (b0 < 128 ==> p0 == b0 * 16777216)
        && (b0 >= 128 ==> p0 == b0 * 16777216 - 4294967296)) by (bit_vector)
        requires
            p0 == (b0 as i32) << 24,
            p1 == (b1 as i32) << 16,
            p2 == (b2 as i32) << 8,
            p3 == (b3 as i32) << 0,
    ;
    p0 + p1 + p2 + p3
}

} // verus!
