//! An endian-aware reader and writer over an in-memory byte stream.
//!
//! Both keep a byte buffer and a position, with the seek behaviour of a
//! standard in-memory cursor: a position may lie past the end of the
//! data; reading there fails, writing there first fills the gap with zeros.

use vstd::prelude::*;
use vstd::string::StringSliceAdditionalSpecFns;
use crate::bytes::{get_u16_le, get_u32_le, le16, le16_bytes, le32, le32_bytes, lemma_le16_roundtrip, lemma_le32_roundtrip, u16_le_bytes, u32_le_bytes};
use crate::text::{lossy_utf8, utf8_lossy};

verus! {

/// Byte order of multi-byte integers.
#[derive(Copy, Clone, PartialEq, Eq, Structural, Debug)]
pub enum Endian {
    Little,
    Big,
}

/// Target of a seek: from the start, from the end, or from the current position.
#[derive(Copy, Clone, PartialEq, Eq, Structural, Debug)]
pub enum SeekFrom {
    Start(u64),
    End(i64),
    Current(i64),
}

/// Failure of a stream operation.
#[derive(Copy, Clone, PartialEq, Eq, Structural, Debug)]
pub enum IoError {
    /// Fewer bytes remained than were asked for.
    UnexpectedEof,
    /// A seek before the start of the stream, or a position out of range.
    InvalidInput,
}

pub struct BinaryReader {
    data: Vec<u8>,
    pos: u64,
    default_endian: Endian,
}

pub struct BinaryWriter {
    data: Vec<u8>,
    pos: u64,
    default_endian: Endian,
}

/// The position that `seek` moves to from `pos` in a stream of `len` bytes,
/// or `None` where the target lies before the start or beyond `u64`.
pub open spec fn seek_target(pos: int, len: int, target: SeekFrom) -> Option<int> {
    let t = match target {
        SeekFrom::Start(n) => n as int,
        SeekFrom::End(off) => len + off,
        SeekFrom::Current(off) => pos + off,
    };
    if 0 <= t <= u64::MAX { Some(t) } else { None }
}

/// The bytes that a read of `n` bytes yields before any reordering.
pub open spec fn take_at(data: Seq<u8>, pos: int, n: int) -> Seq<u8> {
    data.subrange(pos, pos + n)
}

/// The `n` bytes read in stream order, reversed when `endian` is not the default.
pub open spec fn ordered(bytes: Seq<u8>, endian: Endian, default_endian: Endian) -> Seq<u8> {
    if endian == default_endian { bytes } else { bytes.reverse() }
}

/// Stream bytes put least significant first: as they are for `Little`,
/// reversed for `Big`.
pub open spec fn little_first(bytes: Seq<u8>, endian: Endian) -> Seq<u8> {
    if endian == Endian::Little { bytes } else { bytes.reverse() }
}

/// The 16-bit value that two stream bytes give under `endian`: for `Big`
/// the first byte is the most significant, for `Little` the least.
pub open spec fn decode_u16(bytes: Seq<u8>, endian: Endian) -> int {
    le16(little_first(bytes, endian), 0)
}

/// The 32-bit value that four stream bytes give under `endian`.
pub open spec fn decode_u32(bytes: Seq<u8>, endian: Endian) -> int {
    le32(little_first(bytes, endian), 0)
}

/// The stream bytes that a 16-bit value is written as under `endian`.
pub open spec fn encode_u16(v: int, endian: Endian) -> Seq<u8> {
    little_first(le16_bytes(v), endian)
}

/// The stream bytes that a 32-bit value is written as under `endian`.
pub open spec fn encode_u32(v: int, endian: Endian) -> Seq<u8> {
    little_first(le32_bytes(v), endian)
}

/// `data` after `bytes` are written at `pos`: a gap before `pos` is filled
/// with zeros, bytes under the write are replaced, the rest is kept.
pub open spec fn write_at(data: Seq<u8>, pos: int, bytes: Seq<u8>) -> Seq<u8> {
    let end = pos + bytes.len();
    let len = if end > data.len() { end } else { data.len() as int };
    Seq::new(
        len as nat,
        |i: int|
            if pos <= i < end {
                bytes[i - pos]
            } else if i < data.len() {
                data[i]
            } else {
                0u8
            },
    )
}

/// `bytes` put least significant first for `endian` (see `little_first`).
fn little_first_vec(bytes: Vec<u8>, endian: Endian) -> (r: Vec<u8>)
    ensures
        r@ == little_first(bytes@, endian),
{
    match endian {
        Endian::Little => bytes,
        Endian::Big => reversed(&bytes),
    }
}

impl BinaryReader {
    pub closed spec fn spec_data(&self) -> Seq<u8> {
        self.data@
    }

    pub closed spec fn spec_pos(&self) -> int {
        self.pos as int
    }

    pub closed spec fn spec_endian(&self) -> Endian {
        self.default_endian
    }

    /// A reader at position 0 of `data`.
    pub fn new(data: Vec<u8>, endian: Endian) -> (r: Self)
        ensures
            r.spec_data() == data@,
            r.spec_pos() == 0,
            r.spec_endian() == endian,
    {
        Self { data, pos: 0, default_endian: endian }
    }

    /// Reads `n` bytes at the position; fails, unchanged, where fewer remain.
    pub fn read_vec(&mut self, n: usize) -> (res: Result<Vec<u8>, IoError>)
        ensures
            final(self).spec_data() == old(self).spec_data(),
            final(self).spec_endian() == old(self).spec_endian(),
            old(self).spec_pos() + n <= old(self).spec_data().len() ==> {
                &&& res matches Ok(v)
                &&& v@ == take_at(old(self).spec_data(), old(self).spec_pos(), n as int)
                &&& final(self).spec_pos() == old(self).spec_pos() + n
            },
            old(self).spec_pos() + n > old(self).spec_data().len() ==> {
                &&& res == Err::<Vec<u8>, IoError>(IoError::UnexpectedEof)
                &&& final(self).spec_pos() == old(self).spec_pos()
            },
    {
        let len = self.data.len();
        if self.pos > len as u64 || (n as u64) > (len as u64) - self.pos {
            return Err(IoError::UnexpectedEof);
        }
        let start = self.pos as usize;
        let mut out: Vec<u8> = Vec::new();
        let mut i: usize = 0;
        while i < n
            invariant
                i <= n,
                start + n <= self.data.len(),
                out@ == self.data@.subrange(start as int, start + i),
            decreases n - i,
        {
            out.push(self.data[start + i]);
            i = i + 1;
        }
        self.pos = self.pos + n as u64;
        Ok(out)
    }

    /// Reads `N` bytes at the position; fails, unchanged, where fewer remain.
    pub fn read_exact<const N: usize>(&mut self) -> (res: Result<Vec<u8>, IoError>)
        ensures
            final(self).spec_data() == old(self).spec_data(),
            final(self).spec_endian() == old(self).spec_endian(),
            old(self).spec_pos() + N <= old(self).spec_data().len() ==> {
                &&& res matches Ok(v)
                &&& v@ == take_at(old(self).spec_data(), old(self).spec_pos(), N as int)
                &&& final(self).spec_pos() == old(self).spec_pos() + N
            },
            old(self).spec_pos() + N > old(self).spec_data().len() ==> {
                &&& res == Err::<Vec<u8>, IoError>(IoError::UnexpectedEof)
                &&& final(self).spec_pos() == old(self).spec_pos()
            },
    {
        self.read_vec(N)
    }

    /// Reads `N` bytes, reversed when `endian` differs from the reader's default.
    pub fn read_with_endian<const N: usize>(&mut self, endian: Endian) -> (res: Result<
        Vec<u8>,
        IoError,
    >)
        ensures
            final(self).spec_data() == old(self).spec_data(),
            final(self).spec_endian() == old(self).spec_endian(),
            old(self).spec_pos() + N <= old(self).spec_data().len() ==> {
                &&& res matches Ok(v)
                &&& v@ == ordered(
                    take_at(old(self).spec_data(), old(self).spec_pos(), N as int),
                    endian,
                    old(self).spec_endian(),
                )
                &&& final(self).spec_pos() == old(self).spec_pos() + N
            },
            old(self).spec_pos() + N > old(self).spec_data().len() ==> {
                &&& res == Err::<Vec<u8>, IoError>(IoError::UnexpectedEof)
                &&& final(self).spec_pos() == old(self).spec_pos()
            },
    {
        let buf = self.read_exact::<N>()?;
        if endian != self.default_endian {
            Ok(reversed(&buf))
        } else {
            Ok(buf)
        }
    }

    pub fn read_u8(&mut self) -> (res: Result<u8, IoError>)
        ensures
            final(self).spec_data() == old(self).spec_data(),
            final(self).spec_endian() == old(self).spec_endian(),
            old(self).spec_pos() + 1 <= old(self).spec_data().len() ==> {
                &&& res == Ok::<u8, IoError>(old(self).spec_data()[old(self).spec_pos()])
                &&& final(self).spec_pos() == old(self).spec_pos() + 1
            },
            old(self).spec_pos() + 1 > old(self).spec_data().len() ==> {
                &&& res == Err::<u8, IoError>(IoError::UnexpectedEof)
                &&& final(self).spec_pos() == old(self).spec_pos()
            },
    {
        let b = self.read_exact::<1>()?;
        Ok(b[0])
    }

    pub fn read_u16(&mut self) -> (res: Result<u16, IoError>)
        ensures
            final(self).spec_data() == old(self).spec_data(),
            final(self).spec_endian() == old(self).spec_endian(),
            old(self).spec_pos() + 2 <= old(self).spec_data().len() ==> {
                &&& res matches Ok(v)
                &&& v == decode_u16(take_at(old(self).spec_data(), old(self).spec_pos(), 2), old(self).spec_endian())
                &&& final(self).spec_pos() == old(self).spec_pos() + 2
            },
            old(self).spec_pos() + 2 > old(self).spec_data().len() ==> {
                &&& res == Err::<u16, IoError>(IoError::UnexpectedEof)
                &&& final(self).spec_pos() == old(self).spec_pos()
            },
    {
        let e = self.default_endian;
        self.read_u16_with(e)
    }

    /// Reads two bytes as a value in the byte order `endian`, whatever the
    /// reader's default.
    pub fn read_u16_with(&mut self, endian: Endian) -> (res: Result<u16, IoError>)
        ensures
            final(self).spec_data() == old(self).spec_data(),
            final(self).spec_endian() == old(self).spec_endian(),
            old(self).spec_pos() + 2 <= old(self).spec_data().len() ==> {
                &&& res matches Ok(v)
                &&& v == decode_u16(take_at(old(self).spec_data(), old(self).spec_pos(), 2), endian)
                &&& final(self).spec_pos() == old(self).spec_pos() + 2
            },
            old(self).spec_pos() + 2 > old(self).spec_data().len() ==> {
                &&& res == Err::<u16, IoError>(IoError::UnexpectedEof)
                &&& final(self).spec_pos() == old(self).spec_pos()
            },
    {
        let buf = self.read_exact::<2>()?;
        let buf = little_first_vec(buf, endian);
        Ok(get_u16_le(buf.as_slice(), 0))
    }

    pub fn read_u32(&mut self) -> (res: Result<u32, IoError>)
        ensures
            final(self).spec_data() == old(self).spec_data(),
            final(self).spec_endian() == old(self).spec_endian(),
            old(self).spec_pos() + 4 <= old(self).spec_data().len() ==> {
                &&& res matches Ok(v)
                &&& v == decode_u32(take_at(old(self).spec_data(), old(self).spec_pos(), 4), old(self).spec_endian())
                &&& final(self).spec_pos() == old(self).spec_pos() + 4
            },
            old(self).spec_pos() + 4 > old(self).spec_data().len() ==> {
                &&& res == Err::<u32, IoError>(IoError::UnexpectedEof)
                &&& final(self).spec_pos() == old(self).spec_pos()
            },
    {
        let e = self.default_endian;
        self.read_u32_with(e)
    }

    /// Reads four bytes as a value in the byte order `endian`, whatever the
    /// reader's default.
    pub fn read_u32_with(&mut self, endian: Endian) -> (res: Result<u32, IoError>)
        ensures
            final(self).spec_data() == old(self).spec_data(),
            final(self).spec_endian() == old(self).spec_endian(),
            old(self).spec_pos() + 4 <= old(self).spec_data().len() ==> {
                &&& res matches Ok(v)
                &&& v == decode_u32(take_at(old(self).spec_data(), old(self).spec_pos(), 4), endian)
                &&& final(self).spec_pos() == old(self).spec_pos() + 4
            },
            old(self).spec_pos() + 4 > old(self).spec_data().len() ==> {
                &&& res == Err::<u32, IoError>(IoError::UnexpectedEof)
                &&& final(self).spec_pos() == old(self).spec_pos()
            },
    {
        let buf = self.read_exact::<4>()?;
        let buf = little_first_vec(buf, endian);
        Ok(get_u32_le(buf.as_slice(), 0))
    }

    /// Reads `len` bytes and decodes them as UTF-8, replacing invalid sequences.
    pub fn read_string(&mut self, len: usize) -> (res: Result<String, IoError>)
        ensures
            final(self).spec_data() == old(self).spec_data(),
            final(self).spec_endian() == old(self).spec_endian(),
            old(self).spec_pos() + len <= old(self).spec_data().len() ==> {
                &&& res matches Ok(s)
                &&& s@ == lossy_utf8(
                    take_at(old(self).spec_data(), old(self).spec_pos(), len as int),
                )
                &&& final(self).spec_pos() == old(self).spec_pos() + len
            },
            old(self).spec_pos() + len > old(self).spec_data().len() ==> {
                &&& res == Err::<String, IoError>(IoError::UnexpectedEof)
                &&& final(self).spec_pos() == old(self).spec_pos()
            },
    {
        let buf = self.read_vec(len)?;
        Ok(utf8_lossy(buf.as_slice()))
    }

    /// Moves the position; a target before the start fails and leaves it unchanged.
    pub fn seek(&mut self, target: SeekFrom) -> (res: Result<u64, IoError>)
        ensures
            final(self).spec_data() == old(self).spec_data(),
            final(self).spec_endian() == old(self).spec_endian(),
            seek_target(old(self).spec_pos(), old(self).spec_data().len() as int, target) matches Some(t)
                ==> res == Ok::<u64, IoError>(t as u64) && final(self).spec_pos() == t,
            seek_target(old(self).spec_pos(), old(self).spec_data().len() as int, target) is None
                ==> res == Err::<u64, IoError>(IoError::InvalidInput) && final(self).spec_pos()
                == old(self).spec_pos(),
    {
        match seek_position(self.pos, self.data.len(), target) {
            Some(t) => {
                self.pos = t;
                Ok(t)
            },
            None => Err(IoError::InvalidInput),
        }
    }

    pub fn position(&mut self) -> (res: Result<u64, IoError>)
        ensures
            *final(self) == *old(self),
            res == Ok::<u64, IoError>(old(self).spec_pos() as u64),
    {
        Ok(self.pos)
    }
}

impl BinaryWriter {
    pub closed spec fn spec_data(&self) -> Seq<u8> {
        self.data@
    }

    pub closed spec fn spec_pos(&self) -> int {
        self.pos as int
    }

    pub closed spec fn spec_endian(&self) -> Endian {
        self.default_endian
    }

    /// An empty stream at position 0.
    pub fn new(endian: Endian) -> (w: Self)
        ensures
            w.spec_data() == Seq::<u8>::empty(),
            w.spec_pos() == 0,
            w.spec_endian() == endian,
    {
        Self { data: Vec::new(), pos: 0, default_endian: endian }
    }

    /// The bytes written so far.
    pub fn data(&self) -> (r: &Vec<u8>)
        ensures
            r@ == self.spec_data(),
    {
        &self.data
    }

    /// Writes all of `bytes` at the position and moves past them; fails,
    /// unchanged, where the end would lie beyond `usize`.
    pub fn write_vec(&mut self, bytes: &[u8]) -> (res: Result<(), IoError>)
        ensures
            final(self).spec_endian() == old(self).spec_endian(),
            old(self).spec_pos() + bytes@.len() <= usize::MAX ==> {
                &&& res is Ok
                &&& final(self).spec_data() == write_at(old(self).spec_data(), old(self).spec_pos(), bytes@)
                &&& final(self).spec_pos() == old(self).spec_pos() + bytes@.len()
            },
            old(self).spec_pos() + bytes@.len() > usize::MAX ==> {
                &&& res == Err::<(), IoError>(IoError::InvalidInput)
                &&& *final(self) == *old(self)
            },
    {
        if self.pos > usize::MAX as u64 || bytes.len() > usize::MAX - (self.pos as usize) {
            return Err(IoError::InvalidInput);
        }
        let pos = self.pos as usize;
        let ghost old_data = self.data@;
        while self.data.len() < pos
            invariant
                pos + bytes@.len() <= usize::MAX,
                self.default_endian == old(self).default_endian,
                self.data@.len() <= pos || self.data@ == old_data,
                self.data@.len() >= old_data.len(),
                forall|i: int| 0 <= i < self.data@.len() ==> #[trigger] self.data@[i] == (if i < old_data.len() { old_data[i] } else { 0u8 }),
            decreases pos - self.data@.len(),
        {
            self.data.push(0u8);
        }
        let ghost padded = self.data@;
        let mut i: usize = 0;
        while i < bytes.len()
            invariant
                i <= bytes@.len(),
                pos + bytes@.len() <= usize::MAX,
                self.default_endian == old(self).default_endian,
                padded.len() >= pos,
                self.data@.len() == if pos + i > padded.len() { pos + i } else { padded.len() as int },
                forall|k: int| 0 <= k < self.data@.len() ==> #[trigger] self.data@[k] == (
                    if pos <= k < pos + i { bytes@[k - pos] } else { padded[k] }),
            decreases bytes@.len() - i,
        {
            if pos + i < self.data.len() {
                self.data.set(pos + i, bytes[i]);
            } else {
                self.data.push(bytes[i]);
            }
            i = i + 1;
        }
        self.pos = (pos + bytes.len()) as u64;
        assert(self.data@ =~= write_at(old_data, pos as int, bytes@));
        Ok(())
    }

    /// Writes the least-significant-first bytes `buf` in the byte order
    /// `endian`.
    fn write_with_endian(&mut self, buf: Vec<u8>, endian: Endian) -> (res: Result<(), IoError>)
        ensures
            final(self).spec_endian() == old(self).spec_endian(),
            old(self).spec_pos() + buf@.len() <= usize::MAX ==> {
                &&& res is Ok
                &&& final(self).spec_data() == write_at(
                    old(self).spec_data(),
                    old(self).spec_pos(),
                    little_first(buf@, endian),
                )
                &&& final(self).spec_pos() == old(self).spec_pos() + buf@.len()
            },
            old(self).spec_pos() + buf@.len() > usize::MAX ==> {
                &&& res == Err::<(), IoError>(IoError::InvalidInput)
                &&& *final(self) == *old(self)
            },
    {
        let b = little_first_vec(buf, endian);
        self.write_vec(b.as_slice())
    }

    pub fn write_u8(&mut self, value: u8) -> (res: Result<(), IoError>)
        ensures
            final(self).spec_endian() == old(self).spec_endian(),
            old(self).spec_pos() + 1 <= usize::MAX ==> {
                &&& res is Ok
                &&& final(self).spec_data() == write_at(old(self).spec_data(), old(self).spec_pos(), seq![value])
                &&& final(self).spec_pos() == old(self).spec_pos() + 1
            },
            old(self).spec_pos() + 1 > usize::MAX ==> {
                &&& res == Err::<(), IoError>(IoError::InvalidInput)
                &&& *final(self) == *old(self)
            },
    {
        let mut v: Vec<u8> = Vec::new();
        v.push(value);
        assert(v@ =~= seq![value]);
        self.write_vec(v.as_slice())
    }

    pub fn write_u16(&mut self, value: u16) -> (res: Result<(), IoError>)
        ensures
            final(self).spec_endian() == old(self).spec_endian(),
            old(self).spec_pos() + 2 <= usize::MAX ==> {
                &&& res is Ok
                &&& final(self).spec_data() == write_at(old(self).spec_data(), old(self).spec_pos(), encode_u16(value as int, old(self).spec_endian()))
                &&& final(self).spec_pos() == old(self).spec_pos() + 2
            },
            old(self).spec_pos() + 2 > usize::MAX ==> {
                &&& res == Err::<(), IoError>(IoError::InvalidInput)
                &&& *final(self) == *old(self)
            },
    {
        let e = self.default_endian;
        self.write_u16_with(value, e)
    }

    /// Writes `value` in the byte order `endian`, whatever the writer's
    /// default.
    pub fn write_u16_with(&mut self, value: u16, endian: Endian) -> (res: Result<(), IoError>)
        ensures
            final(self).spec_endian() == old(self).spec_endian(),
            old(self).spec_pos() + 2 <= usize::MAX ==> {
                &&& res is Ok
                &&& final(self).spec_data() == write_at(
                    old(self).spec_data(),
                    old(self).spec_pos(),
                    encode_u16(value as int, endian),
                )
                &&& final(self).spec_pos() == old(self).spec_pos() + 2
            },
            old(self).spec_pos() + 2 > usize::MAX ==> {
                &&& res == Err::<(), IoError>(IoError::InvalidInput)
                &&& *final(self) == *old(self)
            },
    {
        self.write_with_endian(u16_le_bytes(value), endian)
    }

    pub fn write_u32(&mut self, value: u32) -> (res: Result<(), IoError>)
        ensures
            final(self).spec_endian() == old(self).spec_endian(),
            old(self).spec_pos() + 4 <= usize::MAX ==> {
                &&& res is Ok
                &&& final(self).spec_data() == write_at(old(self).spec_data(), old(self).spec_pos(), encode_u32(value as int, old(self).spec_endian()))
                &&& final(self).spec_pos() == old(self).spec_pos() + 4
            },
            old(self).spec_pos() + 4 > usize::MAX ==> {
                &&& res == Err::<(), IoError>(IoError::InvalidInput)
                &&& *final(self) == *old(self)
            },
    {
        let e = self.default_endian;
        self.write_u32_with(value, e)
    }

    /// Writes `value` in the byte order `endian`, whatever the writer's
    /// default.
    pub fn write_u32_with(&mut self, value: u32, endian: Endian) -> (res: Result<(), IoError>)
        ensures
            final(self).spec_endian() == old(self).spec_endian(),
            old(self).spec_pos() + 4 <= usize::MAX ==> {
                &&& res is Ok
                &&& final(self).spec_data() == write_at(
                    old(self).spec_data(),
                    old(self).spec_pos(),
                    encode_u32(value as int, endian),
                )
                &&& final(self).spec_pos() == old(self).spec_pos() + 4
            },
            old(self).spec_pos() + 4 > usize::MAX ==> {
                &&& res == Err::<(), IoError>(IoError::InvalidInput)
                &&& *final(self) == *old(self)
            },
    {
        self.write_with_endian(u32_le_bytes(value), endian)
    }

    /// Writes the UTF-8 bytes of `s`.
    pub fn write_string(&mut self, s: &str) -> (res: Result<(), IoError>)
        ensures
            final(self).spec_endian() == old(self).spec_endian(),
            old(self).spec_pos() + s.spec_bytes().len() <= usize::MAX ==> {
                &&& res is Ok
                &&& final(self).spec_data() == write_at(old(self).spec_data(), old(self).spec_pos(), s.spec_bytes())
                &&& final(self).spec_pos() == old(self).spec_pos() + s.spec_bytes().len()
            },
            old(self).spec_pos() + s.spec_bytes().len() > usize::MAX ==> {
                &&& res == Err::<(), IoError>(IoError::InvalidInput)
                &&& *final(self) == *old(self)
            },
    {
        self.write_vec(s.as_bytes())
    }

    /// Nothing is held back in memory, so this always succeeds.
    pub fn flush(&mut self) -> (res: Result<(), IoError>)
        ensures
            *final(self) == *old(self),
            res is Ok,
    {
        Ok(())
    }

    /// Moves the position; a target before the start fails and leaves it unchanged.
    pub fn seek(&mut self, target: SeekFrom) -> (res: Result<u64, IoError>)
        ensures
            final(self).spec_data() == old(self).spec_data(),
            final(self).spec_endian() == old(self).spec_endian(),
            seek_target(old(self).spec_pos(), old(self).spec_data().len() as int, target) matches Some(t)
                ==> res == Ok::<u64, IoError>(t as u64) && final(self).spec_pos() == t,
            seek_target(old(self).spec_pos(), old(self).spec_data().len() as int, target) is None
                ==> res == Err::<u64, IoError>(IoError::InvalidInput) && final(self).spec_pos()
                == old(self).spec_pos(),
    {
        match seek_position(self.pos, self.data.len(), target) {
            Some(t) => {
                self.pos = t;
                Ok(t)
            },
            None => Err(IoError::InvalidInput),
        }
    }

    pub fn position(&mut self) -> (res: Result<u64, IoError>)
        ensures
            *final(self) == *old(self),
            res == Ok::<u64, IoError>(old(self).spec_pos() as u64),
    {
        Ok(self.pos)
    }
}

fn seek_position(pos: u64, len: usize, target: SeekFrom) -> (r: Option<u64>)
    ensures
        r matches Some(t) ==> seek_target(pos as int, len as int, target) == Some(t as int),
        r is None ==> seek_target(pos as int, len as int, target) is None,
{
    match target {
        SeekFrom::Start(n) => Some(n),
        SeekFrom::End(off) => {
            let t: i128 = len as i128 + off as i128;
            if t < 0 || t > u64::MAX as i128 { None } else { Some(t as u64) }
        },
        SeekFrom::Current(off) => {
            let t: i128 = pos as i128 + off as i128;
            if t < 0 || t > u64::MAX as i128 { None } else { Some(t as u64) }
        },
    }
}

/// The bytes of `v` in the opposite order.
pub fn reversed(v: &Vec<u8>) -> (r: Vec<u8>)
    ensures
        r@ == v@.reverse(),
{
    let mut r: Vec<u8> = Vec::new();
    let mut i: usize = v.len();
    while i > 0
        invariant
            i <= v@.len(),
            r@ == v@.subrange(i as int, v@.len() as int).reverse(),
        decreases i,
    {
        i = i - 1;
        r.push(v[i]);
        assert(r@ =~= v@.subrange(i as int, v@.len() as int).reverse());
    }
    assert(v@.subrange(0, v@.len() as int) =~= v@);
    r
}

/// A 16-bit value written under an endian and read back under the same one
/// at the same stream position is the value written.
pub proof fn law_u16_write_then_read(data: Seq<u8>, pos: int, v: u16, endian: Endian)
    requires
        0 <= pos,
    ensures
        decode_u16(take_at(write_at(data, pos, encode_u16(v as int, endian)), pos, 2), endian) == v,
{
    let enc = encode_u16(v as int, endian);
    assert(take_at(write_at(data, pos, enc), pos, 2) =~= enc);
    assert(enc.reverse().reverse() =~= enc);
    assert(le16_bytes(v as int).reverse().reverse() =~= le16_bytes(v as int));
    lemma_le16_roundtrip(v as int);
}

/// A 32-bit value written under an endian and read back under the same one
/// at the same stream position is the value written.
pub proof fn law_u32_write_then_read(data: Seq<u8>, pos: int, v: u32, endian: Endian)
    requires
        0 <= pos,
    ensures
        decode_u32(take_at(write_at(data, pos, encode_u32(v as int, endian)), pos, 4), endian) == v,
{
    let enc = encode_u32(v as int, endian);
    assert(take_at(write_at(data, pos, enc), pos, 4) =~= enc);
    assert(le32_bytes(v as int).reverse().reverse() =~= le32_bytes(v as int));
    lemma_le32_roundtrip(v as int);
}

/// Bytes written at a position are read back unchanged from it.
pub proof fn law_write_then_read_bytes(data: Seq<u8>, pos: int, bytes: Seq<u8>)
    requires
        0 <= pos,
    ensures
        take_at(write_at(data, pos, bytes), pos, bytes.len() as int) == bytes,
        write_at(data, pos, bytes).len() >= pos + bytes.len(),
{
    assert(take_at(write_at(data, pos, bytes), pos, bytes.len() as int) =~= bytes);
}

/// A write leaves every byte before its position as it was.
pub proof fn law_write_keeps_prefix(data: Seq<u8>, pos: int, bytes: Seq<u8>)
    requires
        0 <= pos <= data.len(),
    ensures
        write_at(data, pos, bytes).subrange(0, pos) == data.subrange(0, pos),
{
    assert(write_at(data, pos, bytes).subrange(0, pos) =~= data.subrange(0, pos));
}

} // verus!
