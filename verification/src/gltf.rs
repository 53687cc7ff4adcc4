//! The binary glTF container: a twelve-byte header, a JSON chunk padded
//! with spaces to four bytes, and, where there is binary data, a binary
//! chunk padded with zeros.

use vstd::prelude::*;
use crate::bytes::{le32_bytes, u32_le_bytes};

verus! {

/// How many bytes bring a length of `n` to a multiple of four.
pub open spec fn pad4(n: int) -> int {
    (4 - n % 4) % 4
}

/// `n` copies of the byte `b`.
pub open spec fn repeat(b: u8, n: int) -> Seq<u8> {
    Seq::new(n as nat, |i: int| b)
}

/// A chunk: its padded length (the low 32 bits), its type, its data and
/// the padding.
pub open spec fn glb_chunk(kind: Seq<u8>, data: Seq<u8>, fill: u8) -> Seq<u8> {
    le32_bytes((data.len() as int + pad4(data.len() as int)) % 0x1_0000_0000) + kind + data + repeat(fill, pad4(data.len() as int))
}

/// The bytes "JSON" and "BIN" with a zero, as chunk types.
pub open spec fn json_kind() -> Seq<u8> {
    seq![0x4Au8, 0x53, 0x4F, 0x4E]
}

pub open spec fn bin_kind() -> Seq<u8> {
    seq![0x42u8, 0x49, 0x4E, 0x00]
}

/// The container of the JSON text `json` and the binary data `bin`: "glTF",
/// version 2, the total length (its low 32 bits), the JSON chunk, and the
/// binary chunk where `bin` is not empty.
pub open spec fn glb(json: Seq<u8>, bin: Seq<u8>) -> Seq<u8> {
    let body = glb_chunk(json_kind(), json, 0x20) + if bin.len() == 0 {
        Seq::empty()
    } else {
        glb_chunk(bin_kind(), bin, 0)
    };
    seq![0x67u8, 0x6C, 0x54, 0x46] + le32_bytes(2) + le32_bytes((12 + body.len() as int) % 0x1_0000_0000) + body
}

/// The padding of a length of `n`, and the low 32 bits of the padded
/// length.
fn padded_len(n: usize) -> (r: (u32, usize))
    ensures
        r.1 == pad4(n as int),
        r.0 == (n + pad4(n as int)) % 0x1_0000_0000,
{
    let pad = (4 - n % 4) % 4;
    let total = (n as u128 + pad as u128) % 0x1_0000_0000;
    (total as u32, pad)
}

pub(crate) fn push_all(out: &mut Vec<u8>, bytes: &[u8])
    ensures
        final(out)@ == old(out)@ + bytes@,
{
    let mut i: usize = 0;
    let ghost start = out@;
    while i < bytes.len()
        invariant
            i <= bytes@.len(),
            out@ == start + bytes@.take(i as int),
        decreases bytes.len() - i,
    {
        out.push(bytes[i]);
        i = i + 1;
        assert(out@ =~= start + bytes@.take(i as int));
    }
    assert(bytes@.take(i as int) =~= bytes@);
}

fn push_fill(out: &mut Vec<u8>, b: u8, n: usize)
    ensures
        final(out)@ == old(out)@ + repeat(b, n as int),
{
    let mut i: usize = 0;
    let ghost start = out@;
    while i < n
        invariant
            i <= n,
            out@ == start + repeat(b, i as int),
        decreases n - i,
    {
        out.push(b);
        i = i + 1;
        assert(out@ =~= start + repeat(b, i as int));
    }
}

fn push_chunk(out: &mut Vec<u8>, kind: &[u8], data: &[u8], fill: u8)
    ensures
        final(out)@ == old(out)@ + glb_chunk(kind@, data@, fill),
{
    let (len, pad) = padded_len(data.len());
    let lb = u32_le_bytes(len);
    push_all(out, lb.as_slice());
    push_all(out, kind);
    push_all(out, data);
    push_fill(out, fill, pad);
    assert(out@ =~= old(out)@ + glb_chunk(kind@, data@, fill));
}

/// The binary glTF container of the JSON text `json` (the glTF document as
/// serialized) and the binary buffer `buffer_data`.
pub fn export_glb_bytes(json: &[u8], buffer_data: &[u8]) -> (r: Vec<u8>)
    ensures
        r@ == glb(json@, buffer_data@),
{
    let mut body: Vec<u8> = Vec::new();
    let json_kind_bytes: [u8; 4] = [0x4A, 0x53, 0x4F, 0x4E];
    assert(json_kind_bytes@ =~= json_kind());
    push_chunk(&mut body, &json_kind_bytes, json, 0x20);
    if buffer_data.len() > 0 {
        let bin_kind_bytes: [u8; 4] = [0x42, 0x49, 0x4E, 0x00];
        assert(bin_kind_bytes@ =~= bin_kind());
        push_chunk(&mut body, &bin_kind_bytes, buffer_data, 0);
    }
    assert(body@ =~= glb_chunk(json_kind(), json@, 0x20) + if buffer_data@.len() == 0 {
        Seq::<u8>::empty()
    } else {
        glb_chunk(bin_kind(), buffer_data@, 0)
    });
    let total = total_len(body.len());
    let mut out: Vec<u8> = Vec::new();
    let magic: [u8; 4] = [0x67, 0x6C, 0x54, 0x46];
    push_all(&mut out, &magic);
    let v = u32_le_bytes(2);
    push_all(&mut out, v.as_slice());
    let t = u32_le_bytes(total);
    push_all(&mut out, t.as_slice());
    push_all(&mut out, body.as_slice());
    assert(out@ =~= glb(json@, buffer_data@));
    out
}

/// The low 32 bits of twelve more than `n`.
fn total_len(n: usize) -> (r: u32)
    ensures
        r == (12 + n) % 0x1_0000_0000,
{
    ((n as u128 + 12) % 0x1_0000_0000) as u32
}

} // verus!
