//! Little-endian integer decoding and encoding over byte sequences.

use vstd::prelude::*;

verus! {

/// Unsigned value of the two bytes at `i`, least significant first.
pub open spec fn le16(b: Seq<u8>, i: int) -> int {
    b[i] + 256 * b[i + 1]
}

/// Unsigned value of the four bytes at `i`, least significant first.
pub open spec fn le32(b: Seq<u8>, i: int) -> int {
    b[i] + 256 * b[i + 1] + 65536 * b[i + 2] + 16777216 * b[i + 3]
}

/// Unsigned value of the eight bytes at `i`, least significant first.
pub open spec fn le64(b: Seq<u8>, i: int) -> int {
    le32(b, i) + 4294967296 * le32(b, i + 4)
}

/// Two's complement reading of a 16-bit unsigned value.
pub open spec fn signed16(v: int) -> int {
    if v < 32768 { v } else { v - 65536 }
}

/// Two's complement reading of a 32-bit unsigned value.
pub open spec fn signed32(v: int) -> int {
    if v < 2147483648 { v } else { v - 4294967296 }
}

/// Two's complement reading of an 8-bit unsigned value.
pub open spec fn signed8(v: int) -> int {
    if v < 128 { v } else { v - 256 }
}

/// The two bytes of `v`, least significant first.
pub open spec fn le16_bytes(v: int) -> Seq<u8> {
    seq![(v % 256) as u8, ((v / 256) % 256) as u8]
}

/// The four bytes of `v`, least significant first.
pub open spec fn le32_bytes(v: int) -> Seq<u8> {
    seq![
        (v % 256) as u8,
        ((v / 256) % 256) as u8,
        ((v / 65536) % 256) as u8,
        ((v / 16777216) % 256) as u8,
    ]
}

pub fn get_u16_le(b: &[u8], i: usize) -> (r: u16)
    requires
        i + 2 <= b@.len(),
    ensures
        r == le16(b@, i as int),
{
    (b[i] as u16) + (b[i + 1] as u16) * 256
}

pub fn get_u32_le(b: &[u8], i: usize) -> (r: u32)
    requires
        i + 4 <= b@.len(),
    ensures
        r == le32(b@, i as int),
{
    (b[i] as u32) + (b[i + 1] as u32) * 256 + (b[i + 2] as u32) * 65536 + (b[i + 3] as u32)
        * 16777216
}

pub fn get_u64_le(b: &[u8], i: usize) -> (r: u64)
    requires
        i + 8 <= b@.len(),
    ensures
        r == le64(b@, i as int),
{
    let n = b.len();
    let lo = get_u32_le(b, i) as u64;
    let hi = get_u32_le(b, i + 4) as u64;
    lo + hi * 4294967296
}

pub fn get_i16_le(b: &[u8], i: usize) -> (r: i16)
    requires
        i + 2 <= b@.len(),
    ensures
        r == signed16(le16(b@, i as int)),
{
    let v = get_u16_le(b, i);
    if v < 32768 {
        v as i16
    } else {
        (v as i32 - 65536) as i16
    }
}

pub fn get_i32_le(b: &[u8], i: usize) -> (r: i32)
    requires
        i + 4 <= b@.len(),
    ensures
        r == signed32(le32(b@, i as int)),
{
    let v = get_u32_le(b, i);
    if v < 2147483648 {
        v as i32
    } else {
        (v as i64 - 4294967296) as i32
    }
}

pub fn to_i8(v: u8) -> (r: i8)
    ensures
        r == signed8(v as int),
{
    if v < 128 {
        v as i8
    } else {
        (v as i16 - 256) as i8
    }
}

pub fn u16_le_bytes(v: u16) -> (r: Vec<u8>)
    ensures
        r@ == le16_bytes(v as int),
{
    let mut r: Vec<u8> = Vec::new();
    r.push((v % 256) as u8);
    r.push(((v / 256) % 256) as u8);
    r
}

pub fn u32_le_bytes(v: u32) -> (r: Vec<u8>)
    ensures
        r@ == le32_bytes(v as int),
{
    let mut r: Vec<u8> = Vec::new();
    r.push((v % 256) as u8);
    r.push(((v / 256) % 256) as u8);
    r.push(((v / 65536) % 256) as u8);
    r.push(((v / 16777216) % 256) as u8);
    r
}

/// Decoding the bytes of a 16-bit value gives the value back.
pub proof fn lemma_le16_roundtrip(v: int)
    requires
        0 <= v < 65536,
    ensures
        le16(le16_bytes(v), 0) == v,
{
}

/// Decoding the bytes of a 32-bit value gives the value back.
pub proof fn lemma_le32_roundtrip(v: int)
    requires
        0 <= v < 4294967296,
    ensures
        le32(le32_bytes(v), 0) == v,
{
}

} // verus!
