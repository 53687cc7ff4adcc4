//! FSB5 sound banks: the header, one header per sample with its extra
//! chunks, the optional table of sample names, and each sample's data,
//! split into Vorbis packets where the bank holds Vorbis audio.

use vstd::prelude::*;
use crate::bytes::{le16, le32, le64, signed32, get_u16_le, get_u32_le, get_u64_le, get_i32_le};
use crate::text::{lossy_utf8, utf8_lossy};

verus! {

/// The codec of a bank's samples.
#[derive(Copy, Clone, PartialEq, Eq, Structural, Debug)]
pub enum Mode {
    NONE,
    PCM8,
    PCM16,
    PCM24,
    PCM32,
    PCMFLOAT,
    GCADPCM,
    IMAADPCM,
    VAG,
    HEVAG,
    XMA,
    MPEG,
    CELT,
    AT9,
    XWMA,
    VORBIS,
}

/// The kind of an extra chunk of a sample header.
#[derive(Copy, Clone, PartialEq, Eq, Structural, Debug)]
pub enum ChunkType {
    Channels,
    Frequency,
    Loop,
    XmaSeek,
    DspCoeff,
    XwmaData,
    VorbisData,
    UnknownData,
}

/// The bank header.
pub struct FSB5Header {
    pub id: [u8; 4],
    pub version: i32,
    pub num_samples: i32,
    pub sample_header_size: i32,
    pub name_table_size: i32,
    pub data_size: i32,
    pub mode: Mode,
    pub zero: [u8; 8],
    pub hash: [u8; 16],
    pub dummy: [u8; 8],
    /// Present in banks of version 0.
    pub unknown: Option<u32>,
}

/// The fields packed in a sample header's first 64 bits.
#[derive(Copy, Clone, PartialEq, Eq, Structural, Debug)]
pub struct SampleHeaderBitfield {
    pub extra_params: bool,
    /// Frequency code, 1 to 9.
    pub frequency: u8,
    pub two_channels: bool,
    /// Offset of the sample's data, in units of 16 bytes.
    pub data_offset: u32,
    pub samples: u32,
}

/// A loop's bounds.
#[derive(Copy, Clone, PartialEq, Eq, Structural, Debug)]
pub struct Loop {
    pub loop_start: u32,
    pub loop_end: u32,
}

/// An entry of a Vorbis seek table.
#[derive(Copy, Clone, PartialEq, Eq, Structural, Debug)]
pub struct VorbisPacketData {
    pub offset: u32,
    pub granule_position: Option<u32>,
}

/// A Vorbis chunk: its checksum and seek table.
pub struct VorbisChunk {
    pub crc32: u32,
    pub packets: Vec<VorbisPacketData>,
}

/// An extra chunk of a sample header.
pub enum ExtraChunk {
    Channels(u8),
    Frequency(u32),
    Loop(Loop),
    XmaSeek(Vec<u8>),
    DspCoeff(Vec<u8>),
    XwmaData(Vec<u8>),
    VorbisData(VorbisChunk),
    Unknown(Vec<u8>),
}

/// A sample header: its bit fields and extra chunks.
pub struct FSBSampleHeader {
    pub bitfield: SampleHeaderBitfield,
    pub extra_chunks: Vec<ExtraChunk>,
}

/// A sample name with its offset in the name table.
pub struct NameTableEntry {
    pub name_start: u32,
    pub name: String,
}

/// A Vorbis packet of sample data.
pub struct VorbisPacket {
    pub audio: bool,
    pub r: u8,
    pub data: Vec<u8>,
}

/// A sample's data.
pub enum SampleData {
    Vorbis(Vec<VorbisPacket>),
    Raw(Vec<u8>),
}

/// A whole bank.
pub struct FSB5File {
    pub header: FSB5Header,
    pub sample_headers: Vec<FSBSampleHeader>,
    pub name_table: Option<Vec<NameTableEntry>>,
    pub sample_data: Vec<SampleData>,
}

/// Why a bank cannot be read.
#[derive(Copy, Clone, PartialEq, Eq, Structural, Debug)]
pub enum FsbError {
    /// The data ends before the bank does.
    UnexpectedEof,
    /// The header names no codec that is known.
    InvalidMode,
}

/// What reading a bank can run into beyond a plain error: data on which
/// the reader stops with a panic.
#[derive(Copy, Clone, PartialEq, Eq, Structural, Debug)]
pub enum FsbFault {
    UnexpectedEof,
    InvalidMode,
    Malformed,
}

// ------------------------------------------------------------------ views

/// An extra chunk as plain values.
pub enum ExtraChunkView {
    Channels(u8),
    Frequency(u32),
    Loop(Loop),
    XmaSeek(Seq<u8>),
    DspCoeff(Seq<u8>),
    XwmaData(Seq<u8>),
    VorbisData(u32, Seq<VorbisPacketData>),
    Unknown(Seq<u8>),
}

pub open spec fn chunk_view(c: ExtraChunk) -> ExtraChunkView {
    match c {
        ExtraChunk::Channels(v) => ExtraChunkView::Channels(v),
        ExtraChunk::Frequency(v) => ExtraChunkView::Frequency(v),
        ExtraChunk::Loop(l) => ExtraChunkView::Loop(l),
        ExtraChunk::XmaSeek(d) => ExtraChunkView::XmaSeek(d@),
        ExtraChunk::DspCoeff(d) => ExtraChunkView::DspCoeff(d@),
        ExtraChunk::XwmaData(d) => ExtraChunkView::XwmaData(d@),
        ExtraChunk::VorbisData(v) => ExtraChunkView::VorbisData(v.crc32, v.packets@),
        ExtraChunk::Unknown(d) => ExtraChunkView::Unknown(d@),
    }
}

pub open spec fn chunks_view(s: Seq<ExtraChunk>) -> Seq<ExtraChunkView> {
    Seq::new(s.len(), |i: int| chunk_view(s[i]))
}

/// A sample header as plain values.
pub open spec fn sample_header_view(h: FSBSampleHeader) -> (SampleHeaderBitfield, Seq<ExtraChunkView>) {
    (h.bitfield, chunks_view(h.extra_chunks@))
}

pub open spec fn sample_headers_view(s: Seq<FSBSampleHeader>) -> Seq<(SampleHeaderBitfield, Seq<ExtraChunkView>)> {
    Seq::new(s.len(), |i: int| sample_header_view(s[i]))
}

/// Name table entries as offsets and texts.
pub open spec fn names_view(s: Seq<NameTableEntry>) -> Seq<(u32, Seq<char>)> {
    Seq::new(s.len(), |i: int| (s[i].name_start, s[i].name@))
}

/// A sample's data as plain values.
pub enum SampleDataView {
    Vorbis(Seq<(bool, u8, Seq<u8>)>),
    Raw(Seq<u8>),
}

pub open spec fn packets_view(s: Seq<VorbisPacket>) -> Seq<(bool, u8, Seq<u8>)> {
    Seq::new(s.len(), |i: int| (s[i].audio, s[i].r, s[i].data@))
}

pub open spec fn sample_data_view(d: SampleData) -> SampleDataView {
    match d {
        SampleData::Vorbis(p) => SampleDataView::Vorbis(packets_view(p@)),
        SampleData::Raw(r) => SampleDataView::Raw(r@),
    }
}

pub open spec fn sample_datas_view(s: Seq<SampleData>) -> Seq<SampleDataView> {
    Seq::new(s.len(), |i: int| sample_data_view(s[i]))
}

// ------------------------------------------------------------------ spec

/// The outcome of reading from a position: a value and the position after
/// it, an error, or a stop on data the reader cannot take.
pub enum FsbStep<T> {
    Done(T, int),
    Fail(FsbError),
    Crash,
}

/// The codec of the stored code `v`, if it names one.
pub open spec fn mode_of(v: u32) -> Option<Mode> {
    if v == 0 { Some(Mode::NONE) } else if v == 1 { Some(Mode::PCM8) } else if v == 2 { Some(Mode::PCM16) }
    else if v == 3 { Some(Mode::PCM24) } else if v == 4 { Some(Mode::PCM32) } else if v == 5 { Some(Mode::PCMFLOAT) }
    else if v == 6 { Some(Mode::GCADPCM) } else if v == 7 { Some(Mode::IMAADPCM) } else if v == 8 { Some(Mode::VAG) }
    else if v == 9 { Some(Mode::HEVAG) } else if v == 10 { Some(Mode::XMA) } else if v == 11 { Some(Mode::MPEG) }
    else if v == 12 { Some(Mode::CELT) } else if v == 13 { Some(Mode::AT9) } else if v == 14 { Some(Mode::XWMA) }
    else if v == 15 { Some(Mode::VORBIS) } else { None }
}

/// Where the header ends, or why it cannot be read.
pub open spec fn header_end(b: Seq<u8>) -> FsbStep<()> {
    if b.len() < 28 {
        FsbStep::Fail(FsbError::UnexpectedEof)
    } else if mode_of(le32(b, 24) as u32) is None {
        FsbStep::Fail(FsbError::InvalidMode)
    } else if b.len() < 60 {
        FsbStep::Fail(FsbError::UnexpectedEof)
    } else if signed32(le32(b, 4)) == 0 {
        if b.len() < 64 {
            FsbStep::Fail(FsbError::UnexpectedEof)
        } else {
            FsbStep::Done((), 64)
        }
    } else {
        FsbStep::Done((), 60)
    }
}

/// `h` is the header stored at the start of `b`.
pub open spec fn header_at(b: Seq<u8>, h: FSB5Header) -> bool {
    &&& h.id@ == b.subrange(0, 4)
    &&& h.version == signed32(le32(b, 4))
    &&& h.num_samples == signed32(le32(b, 8))
    &&& h.sample_header_size == signed32(le32(b, 12))
    &&& h.name_table_size == signed32(le32(b, 16))
    &&& h.data_size == signed32(le32(b, 20))
    &&& mode_of(le32(b, 24) as u32) == Some(h.mode)
    &&& h.zero@ == b.subrange(28, 36)
    &&& h.hash@ == b.subrange(36, 52)
    &&& h.dummy@ == b.subrange(52, 60)
    &&& h.unknown == (if h.version == 0 { Some(le32(b, 60) as u32) } else { None })
}

/// The bit fields of the 64-bit value `raw`.
pub open spec fn bitfield_of(raw: u64) -> SampleHeaderBitfield {
    SampleHeaderBitfield {
        extra_params: (raw & 1) != 0,
        frequency: ((raw >> 1u64) & 0xF) as u8,
        two_channels: ((raw >> 5u64) & 1) != 0,
        data_offset: ((raw >> 6u64) & 0x0FFF_FFFF) as u32,
        samples: ((raw >> 34u64) & 0x3FFF_FFFF) as u32,
    }
}

/// The kind of extra chunk that the stored code `t` names.
pub open spec fn chunk_type_of(t: u32) -> ChunkType {
    if t == 1 { ChunkType::Channels } else if t == 2 { ChunkType::Frequency } else if t == 3 { ChunkType::Loop }
    else if t == 6 { ChunkType::XmaSeek } else if t == 7 { ChunkType::DspCoeff } else if t == 10 { ChunkType::XwmaData }
    else if t == 11 { ChunkType::VorbisData } else { ChunkType::UnknownData }
}

/// The 32-bit value at `pos`.
pub open spec fn u32_at(b: Seq<u8>, pos: int) -> FsbStep<u32> {
    if 0 <= pos && pos + 4 <= b.len() {
        FsbStep::Done(le32(b, pos) as u32, pos + 4)
    } else {
        FsbStep::Fail(FsbError::UnexpectedEof)
    }
}

/// The `n` bytes at `pos`.
pub open spec fn bytes_at(b: Seq<u8>, pos: int, n: int) -> FsbStep<Seq<u8>> {
    if n == 0 {
        FsbStep::Done(Seq::empty(), pos)
    } else if 0 <= pos && 0 <= n && pos + n <= b.len() {
        FsbStep::Done(b.subrange(pos, pos + n), pos + n)
    } else {
        FsbStep::Fail(FsbError::UnexpectedEof)
    }
}

/// The seek table of a Vorbis chunk: `k` entries from `pos`, `remain` bytes
/// being left in the chunk at the first; an entry has a granule position
/// where more than 4 bytes are left.
pub open spec fn vorbis_entries(b: Seq<u8>, pos: int, remain: int, k: nat) -> FsbStep<Seq<VorbisPacketData>>
    decreases k,
{
    if k == 0 {
        FsbStep::Done(Seq::empty(), pos)
    } else {
        match u32_at(b, pos) {
            FsbStep::Done(offset, p1) => {
                let g = if remain > 4 { u32_at(b, p1) } else { FsbStep::Done(0u32, p1) };
                match g {
                    FsbStep::Done(gv, p2) => {
                        let e = VorbisPacketData { offset, granule_position: if remain > 4 { Some(gv) } else { None } };
                        match vorbis_entries(b, p2, remain - 8, (k - 1) as nat) {
                            FsbStep::Done(r, q) => FsbStep::Done(seq![e] + r, q),
                            FsbStep::Fail(err) => FsbStep::Fail(err),
                            FsbStep::Crash => FsbStep::Crash,
                        }
                    },
                    FsbStep::Fail(err) => FsbStep::Fail(err),
                    FsbStep::Crash => FsbStep::Crash,
                }
            },
            FsbStep::Fail(err) => FsbStep::Fail(err),
            FsbStep::Crash => FsbStep::Crash,
        }
    }
}

/// How many seek table entries a Vorbis chunk with `remain` bytes after its
/// checksum holds: one per 8 bytes, the last possibly short.
pub open spec fn vorbis_count(remain: int) -> nat {
    if remain > 0 { ((remain + 7) / 8) as nat } else { 0 }
}

/// The body of an extra chunk of kind `t` and `size` bytes at `pos`.
pub open spec fn chunk_body(b: Seq<u8>, pos: int, t: ChunkType, size: int) -> FsbStep<ExtraChunkView> {
    match t {
        ChunkType::Channels => if size != 1 {
            FsbStep::Crash
        } else if 0 <= pos < b.len() {
            FsbStep::Done(ExtraChunkView::Channels(b[pos]), pos + 1)
        } else {
            FsbStep::Fail(FsbError::UnexpectedEof)
        },
        ChunkType::Frequency => if size != 4 {
            FsbStep::Crash
        } else {
            match u32_at(b, pos) {
                FsbStep::Done(v, p) => FsbStep::Done(ExtraChunkView::Frequency(v), p),
                FsbStep::Fail(e) => FsbStep::Fail(e),
                FsbStep::Crash => FsbStep::Crash,
            }
        },
        ChunkType::Loop => if size != 8 {
            FsbStep::Crash
        } else if 0 <= pos && pos + 8 <= b.len() {
            FsbStep::Done(ExtraChunkView::Loop(Loop { loop_start: le32(b, pos) as u32, loop_end: le32(b, pos + 4) as u32 }), pos + 8)
        } else {
            FsbStep::Fail(FsbError::UnexpectedEof)
        },
        ChunkType::VorbisData => match u32_at(b, pos) {
            FsbStep::Done(crc, p) => match vorbis_entries(b, p, size - 4, vorbis_count(size - 4)) {
                FsbStep::Done(es, q) => FsbStep::Done(ExtraChunkView::VorbisData(crc, es), q),
                FsbStep::Fail(e) => FsbStep::Fail(e),
                FsbStep::Crash => FsbStep::Crash,
            },
            FsbStep::Fail(e) => FsbStep::Fail(e),
            FsbStep::Crash => FsbStep::Crash,
        },
        _ => match bytes_at(b, pos, size) {
            FsbStep::Done(d, p) => FsbStep::Done(
                match t {
                    ChunkType::XmaSeek => ExtraChunkView::XmaSeek(d),
                    ChunkType::DspCoeff => ExtraChunkView::DspCoeff(d),
                    ChunkType::XwmaData => ExtraChunkView::XwmaData(d),
                    _ => ExtraChunkView::Unknown(d),
                },
                p,
            ),
            FsbStep::Fail(e) => FsbStep::Fail(e),
            FsbStep::Crash => FsbStep::Crash,
        },
    }
}

/// A channel-count chunk's body is its one byte, and a frequency chunk's
/// body its one little-endian word.
pub proof fn law_channels_and_frequency_chunks(b: Seq<u8>, pos: int, t: ChunkType, size: int)
    ensures
        chunk_body(b, pos, t, size) matches FsbStep::Done(ExtraChunkView::Channels(c), q) ==> c == b[pos] && q == pos + 1,
        chunk_body(b, pos, t, size) matches FsbStep::Done(ExtraChunkView::Frequency(f), q) ==> f == le32(b, pos) && q == pos + 4,
{
}

/// A loop chunk's body is two little-endian words: the first is where the
/// loop starts, the second where it ends; eight bytes are read.
pub proof fn law_loop_chunk_start_then_end(b: Seq<u8>, pos: int, t: ChunkType, size: int)
    ensures
        chunk_body(b, pos, t, size) matches FsbStep::Done(ExtraChunkView::Loop(l), q) ==> {
            &&& l.loop_start == le32(b, pos)
            &&& l.loop_end == le32(b, pos + 4)
            &&& q == pos + 8
        },
        t == ChunkType::Loop && size == 8 && 0 <= pos && pos + 8 <= b.len()
            ==> chunk_body(b, pos, t, size) is Done,
{
    if chunk_body(b, pos, t, size) matches FsbStep::Done(ExtraChunkView::Loop(l), q) {
        assert(t == ChunkType::Loop);
    }
}

/// The extra chunks from `pos`, each announced by a 32-bit word whose
/// lowest bit says whether another follows.
pub open spec fn extra_chunks_from(b: Seq<u8>, pos: int) -> FsbStep<Seq<ExtraChunkView>>
    decreases b.len() - pos,
{
    match u32_at(b, pos) {
        FsbStep::Done(raw, p1) => {
            let next = (raw & 1) != 0;
            let size = ((raw >> 1u32) & 0x00FF_FFFF) as int;
            let t = chunk_type_of((raw >> 25u32) & 0x7F);
            match chunk_body(b, p1, t, size) {
                FsbStep::Done(c, p2) => if !next {
                    FsbStep::Done(seq![c], p2)
                } else if p2 <= pos || p2 > b.len() {
                    FsbStep::Crash
                } else {
                    match extra_chunks_from(b, p2) {
                        FsbStep::Done(r, q) => FsbStep::Done(seq![c] + r, q),
                        FsbStep::Fail(e) => FsbStep::Fail(e),
                        FsbStep::Crash => FsbStep::Crash,
                    }
                },
                FsbStep::Fail(e) => FsbStep::Fail(e),
                FsbStep::Crash => FsbStep::Crash,
            }
        },
        FsbStep::Fail(e) => FsbStep::Fail(e),
        FsbStep::Crash => FsbStep::Crash,
    }
}

/// The sample header at `pos`.
pub open spec fn sample_header_at(b: Seq<u8>, pos: int) -> FsbStep<(SampleHeaderBitfield, Seq<ExtraChunkView>)> {
    if 0 <= pos && pos + 8 <= b.len() {
        let bf = bitfield_of(le64(b, pos) as u64);
        if bf.extra_params {
            match extra_chunks_from(b, pos + 8) {
                FsbStep::Done(cs, q) => FsbStep::Done((bf, cs), q),
                FsbStep::Fail(e) => FsbStep::Fail(e),
                FsbStep::Crash => FsbStep::Crash,
            }
        } else {
            FsbStep::Done((bf, Seq::empty()), pos + 8)
        }
    } else {
        FsbStep::Fail(FsbError::UnexpectedEof)
    }
}

/// `k` sample headers from `pos`.
pub open spec fn sample_headers_from(b: Seq<u8>, pos: int, k: nat) -> FsbStep<Seq<(SampleHeaderBitfield, Seq<ExtraChunkView>)>>
    decreases k,
{
    if k == 0 {
        FsbStep::Done(Seq::empty(), pos)
    } else {
        match sample_header_at(b, pos) {
            FsbStep::Done(h, p) => match sample_headers_from(b, p, (k - 1) as nat) {
                FsbStep::Done(r, q) => FsbStep::Done(seq![h] + r, q),
                FsbStep::Fail(e) => FsbStep::Fail(e),
                FsbStep::Crash => FsbStep::Crash,
            },
            FsbStep::Fail(e) => FsbStep::Fail(e),
            FsbStep::Crash => FsbStep::Crash,
        }
    }
}

/// The first NUL byte at or after `pos`, or the end of the data.
pub open spec fn nul_from(b: Seq<u8>, pos: int) -> int
    decreases b.len() - pos,
{
    if pos < 0 || pos >= b.len() {
        b.len() as int
    } else if b[pos] == 0 {
        pos
    } else {
        nul_from(b, pos + 1)
    }
}

/// `k` 32-bit values from `pos`.
pub open spec fn u32s_from(b: Seq<u8>, pos: int, k: nat) -> FsbStep<Seq<u32>>
    decreases k,
{
    if k == 0 {
        FsbStep::Done(Seq::empty(), pos)
    } else {
        match u32_at(b, pos) {
            FsbStep::Done(v, p) => match u32s_from(b, p, (k - 1) as nat) {
                FsbStep::Done(r, q) => FsbStep::Done(seq![v] + r, q),
                FsbStep::Fail(e) => FsbStep::Fail(e),
                FsbStep::Crash => FsbStep::Crash,
            },
            FsbStep::Fail(e) => FsbStep::Fail(e),
            FsbStep::Crash => FsbStep::Crash,
        }
    }
}

/// The NUL-terminated name at `pos` (decoded with replacement) and the
/// position after its NUL; the end of the data before a NUL is an error.
pub open spec fn name_at(b: Seq<u8>, pos: int) -> FsbStep<Seq<char>> {
    if 0 <= pos && nul_from(b, pos) < b.len() {
        FsbStep::Done(lossy_utf8(b.subrange(pos, nul_from(b, pos))), nul_from(b, pos) + 1)
    } else {
        FsbStep::Fail(FsbError::UnexpectedEof)
    }
}

/// The names at the offsets `starts` from the table start `base`, read in
/// turn; `pos` is where reading stands before them.
pub open spec fn names_from(b: Seq<u8>, base: int, starts: Seq<u32>, pos: int) -> FsbStep<Seq<(u32, Seq<char>)>>
    decreases starts.len(),
{
    if starts.len() == 0 {
        FsbStep::Done(Seq::empty(), pos)
    } else {
        match name_at(b, base + starts[0]) {
            FsbStep::Done(n, p) => match names_from(b, base, starts.drop_first(), p) {
                FsbStep::Done(r, q) => FsbStep::Done(seq![(starts[0], n)] + r, q),
                FsbStep::Fail(e) => FsbStep::Fail(e),
                FsbStep::Crash => FsbStep::Crash,
            },
            FsbStep::Fail(e) => FsbStep::Fail(e),
            FsbStep::Crash => FsbStep::Crash,
        }
    }
}

/// The name table at `pos` for `k` samples.
pub open spec fn name_table_at(b: Seq<u8>, pos: int, k: nat) -> FsbStep<Seq<(u32, Seq<char>)>> {
    match u32s_from(b, pos, k) {
        FsbStep::Done(starts, p) => names_from(b, pos, starts, p),
        FsbStep::Fail(e) => FsbStep::Fail(e),
        FsbStep::Crash => FsbStep::Crash,
    }
}

/// The value of a signed 32-bit field converted to 64 unsigned bits, as
/// `as u64` does.
pub open spec fn widen(v: i32) -> int {
    if v >= 0 { v as int } else { v + 0x1_0000_0000_0000_0000 }
}

/// Where the sample data starts, the headers and names ending at `cur`:
/// the reader skips to byte 60 + header size + name table size, the sum
/// taken over 64 bits, where that lies further.
pub open spec fn data_start(b: Seq<u8>, cur: int, shs: i32, nts: i32) -> FsbStep<()> {
    let a = 60 + widen(shs);
    if a > u64::MAX || a + widen(nts) > u64::MAX {
        FsbStep::Crash
    } else {
        let target = a + widen(nts);
        if target <= cur {
            FsbStep::Done((), cur)
        } else if target > b.len() {
            FsbStep::Fail(FsbError::UnexpectedEof)
        } else {
            FsbStep::Done((), target)
        }
    }
}

/// The Vorbis packets from `pos`, `remaining` bytes of the sample being
/// left: a 16-bit size (the end of the data or a zero size ends the
/// packets), a byte of flags, and size - 1 bytes of data.
pub open spec fn vorbis_packets_from(b: Seq<u8>, pos: int, remaining: int) -> FsbStep<Seq<(bool, u8, Seq<u8>)>>
    decreases remaining,
{
    if remaining <= 0 || pos < 0 || pos + 2 > b.len() || le16(b, pos) == 0 {
        FsbStep::Done(Seq::empty(), pos)
    } else if pos + 2 >= b.len() {
        FsbStep::Fail(FsbError::UnexpectedEof)
    } else {
        let size = le16(b, pos);
        let flags = b[pos + 2];
        let data_len = size - 1;
        if pos + 3 + data_len > b.len() {
            FsbStep::Fail(FsbError::UnexpectedEof)
        } else {
            let r1 = if remaining >= 2 { remaining - 2 } else { 0 };
            let r2 = if r1 >= 1 { r1 - 1 } else { 0 };
            let r3 = if r2 >= data_len { r2 - data_len } else { 0 };
            let pk = ((flags & 1) != 0, (flags >> 1u8) & 0x7F, b.subrange(pos + 3, pos + 3 + data_len));
            match vorbis_packets_from(b, pos + 3 + data_len, r3) {
                FsbStep::Done(r, q) => FsbStep::Done(seq![pk] + r, q),
                FsbStep::Fail(e) => FsbStep::Fail(e),
                FsbStep::Crash => FsbStep::Crash,
            }
        }
    }
}

/// The data of sample `i`, the data area starting at `sds`: from its offset
/// to the next sample's, or to the end of the data area for the last; an
/// end before the start stops the reader.
pub open spec fn sample_data_at(
    b: Seq<u8>,
    sds: int,
    hs: Seq<(SampleHeaderBitfield, Seq<ExtraChunkView>)>,
    i: int,
    data_size: i32,
    vorbis: bool,
) -> FsbStep<SampleDataView> {
    let start = sds + hs[i].0.data_offset * 16;
    let end = if i + 1 < hs.len() { sds + hs[i + 1].0.data_offset * 16 } else { sds + widen(data_size) };
    if end > u64::MAX || end < start {
        FsbStep::Crash
    } else if vorbis {
        match vorbis_packets_from(b, start, end - start) {
            FsbStep::Done(ps, q) => FsbStep::Done(SampleDataView::Vorbis(ps), q),
            FsbStep::Fail(e) => FsbStep::Fail(e),
            FsbStep::Crash => FsbStep::Crash,
        }
    } else {
        match bytes_at(b, start, end - start) {
            FsbStep::Done(d, q) => FsbStep::Done(SampleDataView::Raw(d), q),
            FsbStep::Fail(e) => FsbStep::Fail(e),
            FsbStep::Crash => FsbStep::Crash,
        }
    }
}

/// The data of samples `i` onwards, in turn.
pub open spec fn sample_datas_from(
    b: Seq<u8>,
    sds: int,
    hs: Seq<(SampleHeaderBitfield, Seq<ExtraChunkView>)>,
    i: nat,
    data_size: i32,
    vorbis: bool,
) -> FsbStep<Seq<SampleDataView>>
    decreases hs.len() - i,
{
    if i >= hs.len() {
        FsbStep::Done(Seq::empty(), 0)
    } else {
        match sample_data_at(b, sds, hs, i as int, data_size, vorbis) {
            FsbStep::Done(d, _) => match sample_datas_from(b, sds, hs, i + 1, data_size, vorbis) {
                FsbStep::Done(r, q) => FsbStep::Done(seq![d] + r, q),
                FsbStep::Fail(e) => FsbStep::Fail(e),
                FsbStep::Crash => FsbStep::Crash,
            },
            FsbStep::Fail(e) => FsbStep::Fail(e),
            FsbStep::Crash => FsbStep::Crash,
        }
    }
}

/// The number of samples that a signed count asks for.
pub open spec fn sample_count(n: i32) -> nat {
    if n > 0 { n as nat } else { 0 }
}

/// What reading a bank gives: the sample headers, the name table if the
/// header announces one, and the samples' data; or why it cannot be read.
pub open spec fn fsb_read(b: Seq<u8>) -> FsbStep<(
    Seq<(SampleHeaderBitfield, Seq<ExtraChunkView>)>,
    Option<Seq<(u32, Seq<char>)>>,
    Seq<SampleDataView>,
)> {
    match header_end(b) {
        FsbStep::Done(_, p0) => {
            let n = sample_count(signed32(le32(b, 8)) as i32);
            let shs = signed32(le32(b, 12)) as i32;
            let nts = signed32(le32(b, 16)) as i32;
            let ds = signed32(le32(b, 20)) as i32;
            let vorbis = mode_of(le32(b, 24) as u32) == Some(Mode::VORBIS);
            match sample_headers_from(b, p0, n) {
                FsbStep::Done(hs, p1) => {
                    let names = if nts > 0 {
                        match name_table_at(b, p1, n) {
                            FsbStep::Done(t, p2) => FsbStep::Done(Some(t), p2),
                            FsbStep::Fail(e) => FsbStep::Fail(e),
                            FsbStep::Crash => FsbStep::Crash,
                        }
                    } else {
                        FsbStep::Done(None, p1)
                    };
                    match names {
                        FsbStep::Done(nt, p2) => match data_start(b, p2, shs, nts) {
                            FsbStep::Done(_, sds) => match sample_datas_from(b, sds, hs, 0, ds, vorbis) {
                                FsbStep::Done(ds_view, _) => FsbStep::Done((hs, nt, ds_view), 0),
                                FsbStep::Fail(e) => FsbStep::Fail(e),
                                FsbStep::Crash => FsbStep::Crash,
                            },
                            FsbStep::Fail(e) => FsbStep::Fail(e),
                            FsbStep::Crash => FsbStep::Crash,
                        },
                        FsbStep::Fail(e) => FsbStep::Fail(e),
                        FsbStep::Crash => FsbStep::Crash,
                    }
                },
                FsbStep::Fail(e) => FsbStep::Fail(e),
                FsbStep::Crash => FsbStep::Crash,
            }
        },
        FsbStep::Fail(e) => FsbStep::Fail(e),
        FsbStep::Crash => FsbStep::Crash,
    }
}

// ------------------------------------------------------------------ reading

/// `prefix` put before what a step reads.
pub open spec fn glue<T>(prefix: Seq<T>, step: FsbStep<Seq<T>>) -> FsbStep<Seq<T>> {
    match step {
        FsbStep::Done(r, q) => FsbStep::Done(prefix + r, q),
        FsbStep::Fail(e) => FsbStep::Fail(e),
        FsbStep::Crash => FsbStep::Crash,
    }
}

/// The fault that a failed step reports.
pub open spec fn fault_of<T>(step: FsbStep<T>) -> FsbFault {
    match step {
        FsbStep::Fail(FsbError::UnexpectedEof) => FsbFault::UnexpectedEof,
        FsbStep::Fail(FsbError::InvalidMode) => FsbFault::InvalidMode,
        _ => FsbFault::Malformed,
    }
}

fn mode_from_code(v: u32) -> (r: Option<Mode>)
    ensures
        r == mode_of(v),
{
    match v {
        0 => Some(Mode::NONE),
        1 => Some(Mode::PCM8),
        2 => Some(Mode::PCM16),
        3 => Some(Mode::PCM24),
        4 => Some(Mode::PCM32),
        5 => Some(Mode::PCMFLOAT),
        6 => Some(Mode::GCADPCM),
        7 => Some(Mode::IMAADPCM),
        8 => Some(Mode::VAG),
        9 => Some(Mode::HEVAG),
        10 => Some(Mode::XMA),
        11 => Some(Mode::MPEG),
        12 => Some(Mode::CELT),
        13 => Some(Mode::AT9),
        14 => Some(Mode::XWMA),
        15 => Some(Mode::VORBIS),
        _ => None,
    }
}

fn read_header(b: &[u8]) -> (r: Result<(FSB5Header, usize), FsbFault>)
    ensures
        match header_end(b@) {
            FsbStep::Done(_, p) => r matches Ok((h, q)) && q == p && header_at(b@, h),
            step => r == Err::<(FSB5Header, usize), FsbFault>(fault_of(step)),
        },
{
    if b.len() < 28 {
        return Err(FsbFault::UnexpectedEof);
    }
    let mode = match mode_from_code(get_u32_le(b, 24)) {
        Some(m) => m,
        None => {
            return Err(FsbFault::InvalidMode);
        },
    };
    if b.len() < 60 {
        return Err(FsbFault::UnexpectedEof);
    }
    let version = get_i32_le(b, 4);
    let unknown = if version == 0 {
        if b.len() < 64 {
            return Err(FsbFault::UnexpectedEof);
        }
        Some(get_u32_le(b, 60))
    } else {
        None
    };
    let h = FSB5Header {
        id: [b[0], b[1], b[2], b[3]],
        version,
        num_samples: get_i32_le(b, 8),
        sample_header_size: get_i32_le(b, 12),
        name_table_size: get_i32_le(b, 16),
        data_size: get_i32_le(b, 20),
        mode,
        zero: [b[28], b[29], b[30], b[31], b[32], b[33], b[34], b[35]],
        hash: [b[36], b[37], b[38], b[39], b[40], b[41], b[42], b[43], b[44], b[45], b[46], b[47], b[48], b[49], b[50], b[51]],
        dummy: [b[52], b[53], b[54], b[55], b[56], b[57], b[58], b[59]],
        unknown,
    };
    proof {
        assert(h.id@ =~= b@.subrange(0, 4));
        assert(h.zero@ =~= b@.subrange(28, 36));
        assert(h.hash@ =~= b@.subrange(36, 52));
        assert(h.dummy@ =~= b@.subrange(52, 60));
    }
    let end: usize = if version == 0 { 64 } else { 60 };
    Ok((h, end))
}

fn read_u32(b: &[u8], pos: usize) -> (r: Result<u32, FsbFault>)
    ensures
        match u32_at(b@, pos as int) {
            FsbStep::Done(v, _) => r == Ok::<u32, FsbFault>(v),
            step => r == Err::<u32, FsbFault>(fault_of(step)),
        },
{
    if pos > b.len() || b.len() - pos < 4 {
        return Err(FsbFault::UnexpectedEof);
    }
    Ok(get_u32_le(b, pos))
}

fn read_bytes(b: &[u8], pos: usize, n: usize) -> (r: Result<Vec<u8>, FsbFault>)
    ensures
        match bytes_at(b@, pos as int, n as int) {
            FsbStep::Done(d, _) => r matches Ok(v) && v@ == d,
            step => r == Err::<Vec<u8>, FsbFault>(fault_of(step)),
        },
{
    if n == 0 {
        return Ok(Vec::new());
    }
    if pos > b.len() || b.len() - pos < n {
        return Err(FsbFault::UnexpectedEof);
    }
    let mut v: Vec<u8> = Vec::new();
    let mut i: usize = 0;
    while i < n
        invariant
            pos + n <= b.len(),
            i <= n,
            v@ == b@.subrange(pos as int, pos + i),
        decreases n - i,
    {
        v.push(b[pos + i]);
        i = i + 1;
        assert(v@ =~= b@.subrange(pos as int, pos + i));
    }
    Ok(v)
}

proof fn lemma_vorbis_count_step(remain: int)
    requires
        remain > 0,
    ensures
        vorbis_count(remain) == vorbis_count(remain - 8) + 1,
{
    if remain - 8 > 0 {
        assert((remain + 7) / 8 == (remain - 1) / 8 + 1) by (nonlinear_arith)
            requires remain > 8;
    } else {
        assert((remain + 7) / 8 == 1) by (nonlinear_arith)
            requires 0 < remain <= 8;
    }
}

/// Reads the Vorbis seek table of a chunk whose remaining bytes are
/// `remain0`, at `pos0`.
fn read_vorbis_entries(b: &[u8], pos0: usize, remain0: i64) -> (r: Result<(Vec<VorbisPacketData>, usize), FsbFault>)
    requires
        pos0 <= b.len(),
        -8 <= remain0 < 0x0100_0000,
    ensures
        match vorbis_entries(b@, pos0 as int, remain0 as int, vorbis_count(remain0 as int)) {
            FsbStep::Done(es, q) => r matches Ok((v, p)) && v@ == es && p == q,
            step => r == Err::<(Vec<VorbisPacketData>, usize), FsbFault>(fault_of(step)),
        },
{
    let mut entries: Vec<VorbisPacketData> = Vec::new();
    let mut pos = pos0;
    let mut remain = remain0;
    proof {
        match vorbis_entries(b@, pos0 as int, remain0 as int, vorbis_count(remain0 as int)) {
            FsbStep::Done(rr, q) => {
                assert(Seq::<VorbisPacketData>::empty() + rr =~= rr);
            },
            _ => {},
        }
    }
    while remain > 0
        invariant
            pos <= b.len(),
            -8 <= remain < 0x0100_0000,
            vorbis_entries(b@, pos0 as int, remain0 as int, vorbis_count(remain0 as int))
                == glue(entries@, vorbis_entries(b@, pos as int, remain as int, vorbis_count(remain as int))),
        decreases remain + 8,
    {
        proof {
            lemma_vorbis_count_step(remain as int);
        }
        let ghost prefix = entries@;
        let offset = read_u32(b, pos)?;
        let p1 = pos + 4;
        let granule = if remain > 4 {
            let g = read_u32(b, p1)?;
            Some(g)
        } else {
            None
        };
        let p2 = if remain > 4 { p1 + 4 } else { p1 };
        let e = VorbisPacketData { offset, granule_position: granule };
        entries.push(e);
        proof {
            match vorbis_entries(b@, p2 as int, remain - 8, vorbis_count(remain - 8)) {
                FsbStep::Done(rr, q) => {
                    assert(prefix + (seq![e] + rr) =~= entries@ + rr);
                },
                _ => {},
            }
        }
        pos = p2;
        remain = remain - 8;
    }
    proof {
        assert(entries@ + Seq::<VorbisPacketData>::empty() =~= entries@);
    }
    Ok((entries, pos))
}

/// Reads the body of an extra chunk of kind `t` and `size` bytes at `pos`.
fn read_chunk_body(b: &[u8], pos: usize, t: ChunkType, size: u32) -> (r: Result<(ExtraChunk, usize), FsbFault>)
    requires
        pos <= b.len(),
        size < 0x0100_0000,
    ensures
        match chunk_body(b@, pos as int, t, size as int) {
            FsbStep::Done(c, q) => r matches Ok((x, p)) && chunk_view(x) == c && p == q,
            step => r == Err::<(ExtraChunk, usize), FsbFault>(fault_of(step)),
        },
{
    match t {
        ChunkType::Channels => {
            if size != 1 {
                return Err(FsbFault::Malformed);
            }
            if pos >= b.len() {
                return Err(FsbFault::UnexpectedEof);
            }
            Ok((ExtraChunk::Channels(b[pos]), pos + 1))
        },
        ChunkType::Frequency => {
            if size != 4 {
                return Err(FsbFault::Malformed);
            }
            let v = read_u32(b, pos)?;
            Ok((ExtraChunk::Frequency(v), pos + 4))
        },
        ChunkType::Loop => {
            if size != 8 {
                return Err(FsbFault::Malformed);
            }
            if b.len() - pos < 8 {
                return Err(FsbFault::UnexpectedEof);
            }
            let l = Loop { loop_start: get_u32_le(b, pos), loop_end: get_u32_le(b, pos + 4) };
            Ok((ExtraChunk::Loop(l), pos + 8))
        },
        ChunkType::VorbisData => {
            let crc32 = read_u32(b, pos)?;
            let (packets, q) = read_vorbis_entries(b, pos + 4, size as i64 - 4)?;
            Ok((ExtraChunk::VorbisData(VorbisChunk { crc32, packets }), q))
        },
        _ => {
            let d = read_bytes(b, pos, size as usize)?;
            let q = pos + size as usize;
            let c = match t {
                ChunkType::XmaSeek => ExtraChunk::XmaSeek(d),
                ChunkType::DspCoeff => ExtraChunk::DspCoeff(d),
                ChunkType::XwmaData => ExtraChunk::XwmaData(d),
                _ => ExtraChunk::Unknown(d),
            };
            Ok((c, q))
        },
    }
}

fn chunk_type_from_code(t: u32) -> (r: ChunkType)
    ensures
        r == chunk_type_of(t),
{
    match t {
        1 => ChunkType::Channels,
        2 => ChunkType::Frequency,
        3 => ChunkType::Loop,
        6 => ChunkType::XmaSeek,
        7 => ChunkType::DspCoeff,
        10 => ChunkType::XwmaData,
        11 => ChunkType::VorbisData,
        _ => ChunkType::UnknownData,
    }
}

fn bitfield_from(raw: u64) -> (r: SampleHeaderBitfield)
    ensures
        r == bitfield_of(raw),
{
    SampleHeaderBitfield {
        extra_params: (raw & 1) != 0,
        frequency: ((raw >> 1u64) & 0xF) as u8,
        two_channels: ((raw >> 5u64) & 1) != 0,
        data_offset: ((raw >> 6u64) & 0x0FFF_FFFF) as u32,
        samples: ((raw >> 34u64) & 0x3FFF_FFFF) as u32,
    }
}

/// Reads the extra chunks at `pos0`.
fn read_extra_chunks(b: &[u8], pos0: usize) -> (r: Result<(Vec<ExtraChunk>, usize), FsbFault>)
    requires
        pos0 <= b.len(),
    ensures
        match extra_chunks_from(b@, pos0 as int) {
            FsbStep::Done(cs, q) => r matches Ok((v, p)) && chunks_view(v@) == cs && p == q && p <= b.len(),
            step => r == Err::<(Vec<ExtraChunk>, usize), FsbFault>(fault_of(step)),
        },
{
    let mut chunks: Vec<ExtraChunk> = Vec::new();
    let mut pos = pos0;
    proof {
        assert(chunks_view(chunks@) =~= Seq::<ExtraChunkView>::empty());
        match extra_chunks_from(b@, pos0 as int) {
            FsbStep::Done(rr, q) => {
                assert(Seq::<ExtraChunkView>::empty() + rr =~= rr);
            },
            _ => {},
        }
    }
    loop
        invariant
            pos <= b.len(),
            extra_chunks_from(b@, pos0 as int) == glue(chunks_view(chunks@), extra_chunks_from(b@, pos as int)),
        decreases b.len() - pos,
    {
        let ghost prefix = chunks_view(chunks@);
        let ghost p = pos as int;
        let raw = read_u32(b, pos)?;
        let next = (raw & 1) != 0;
        let size = (raw >> 1u32) & 0x00FF_FFFF;
        let t = chunk_type_from_code((raw >> 25u32) & 0x7F);
        assert(size < 0x0100_0000) by (bit_vector)
            requires size == (raw >> 1u32) & 0x00FF_FFFF;
        let (c, p2) = read_chunk_body(b, pos + 4, t, size)?;
        proof {
            lemma_chunk_body_bounds(b@, p + 4, t, size as int);
        }
        let ghost cv = chunk_view(c);
        chunks.push(c);
        proof {
            assert(chunks_view(chunks@) =~= prefix.push(cv));
        }
        if !next {
            proof {
                assert(prefix + seq![cv] =~= chunks_view(chunks@));
            }
            return Ok((chunks, p2));
        }
        proof {
            match extra_chunks_from(b@, p2 as int) {
                FsbStep::Done(rr, q) => {
                    assert(prefix + (seq![cv] + rr) =~= chunks_view(chunks@) + rr);
                },
                _ => {},
            }
        }
        pos = p2;
    }
}

/// A chunk body read in full ends after where it starts, within the data.
proof fn lemma_chunk_body_bounds(b: Seq<u8>, pos: int, t: ChunkType, size: int)
    requires
        0 <= pos <= b.len(),
        chunk_body(b, pos, t, size) is Done,
    ensures
        match chunk_body(b, pos, t, size) {
            FsbStep::Done(_, q) => pos <= q <= b.len(),
            _ => true,
        },
{
    match t {
        ChunkType::VorbisData => {
            let remain = size - 4;
            if !(0 <= pos && pos + 4 <= b.len()) {
                assert(u32_at(b, pos) is Fail);
            } else {
                let crc = le32(b, pos) as u32;
                assert(u32_at(b, pos) == FsbStep::Done(crc, pos + 4));
                lemma_vorbis_entries_bounds(b, pos + 4, remain, vorbis_count(remain));
                match vorbis_entries(b, pos + 4, remain, vorbis_count(remain)) {
                    FsbStep::Done(es, q) => {
                        assert(chunk_body(b, pos, t, size) == FsbStep::Done(ExtraChunkView::VorbisData(crc, es), q));
                    },
                    _ => {},
                }
            }
        },
        _ => {},
    }
}

proof fn lemma_vorbis_entries_bounds(b: Seq<u8>, pos: int, remain: int, k: nat)
    requires
        0 <= pos <= b.len(),
    ensures
        match vorbis_entries(b, pos, remain, k) {
            FsbStep::Done(_, q) => pos <= q <= b.len(),
            _ => true,
        },
    decreases k,
{
    if k > 0 {
        match u32_at(b, pos) {
            FsbStep::Done(_, p1) => {
                if remain > 4 {
                    match u32_at(b, p1) {
                        FsbStep::Done(_, p2) => {
                            lemma_vorbis_entries_bounds(b, p2, remain - 8, (k - 1) as nat);
                        },
                        _ => {},
                    }
                } else {
                    lemma_vorbis_entries_bounds(b, p1, remain - 8, (k - 1) as nat);
                }
            },
            _ => {},
        }
    }
}

/// Reads the sample header at `pos`.
fn read_sample_header(b: &[u8], pos: usize) -> (r: Result<(FSBSampleHeader, usize), FsbFault>)
    requires
        pos <= b.len(),
    ensures
        match sample_header_at(b@, pos as int) {
            FsbStep::Done(h, q) => r matches Ok((x, p)) && sample_header_view(x) == h && p == q && p <= b.len(),
            step => r == Err::<(FSBSampleHeader, usize), FsbFault>(fault_of(step)),
        },
{
    if b.len() - pos < 8 {
        return Err(FsbFault::UnexpectedEof);
    }
    let bitfield = bitfield_from(get_u64_le(b, pos));
    if bitfield.extra_params {
        let (extra_chunks, q) = read_extra_chunks(b, pos + 8)?;
        Ok((FSBSampleHeader { bitfield, extra_chunks }, q))
    } else {
        let extra_chunks: Vec<ExtraChunk> = Vec::new();
        proof {
            assert(chunks_view(extra_chunks@) =~= Seq::<ExtraChunkView>::empty());
        }
        Ok((FSBSampleHeader { bitfield, extra_chunks }, pos + 8))
    }
}

/// Reads `n` sample headers at `pos0`.
fn read_sample_headers(b: &[u8], pos0: usize, n: usize) -> (r: Result<(Vec<FSBSampleHeader>, usize), FsbFault>)
    requires
        pos0 <= b.len(),
    ensures
        match sample_headers_from(b@, pos0 as int, n as nat) {
            FsbStep::Done(hs, q) => r matches Ok((v, p)) && sample_headers_view(v@) == hs && p == q && p <= b.len(),
            step => r == Err::<(Vec<FSBSampleHeader>, usize), FsbFault>(fault_of(step)),
        },
{
    let mut headers: Vec<FSBSampleHeader> = Vec::new();
    let mut pos = pos0;
    let mut i: usize = 0;
    proof {
        assert(sample_headers_view(headers@) =~= Seq::<(SampleHeaderBitfield, Seq<ExtraChunkView>)>::empty());
        match sample_headers_from(b@, pos0 as int, n as nat) {
            FsbStep::Done(rr, q) => {
                assert(Seq::<(SampleHeaderBitfield, Seq<ExtraChunkView>)>::empty() + rr =~= rr);
            },
            _ => {},
        }
    }
    while i < n
        invariant
            i <= n,
            pos <= b.len(),
            headers@.len() == i,
            sample_headers_from(b@, pos0 as int, n as nat)
                == glue(sample_headers_view(headers@), sample_headers_from(b@, pos as int, (n - i) as nat)),
        decreases n - i,
    {
        let ghost prefix = sample_headers_view(headers@);
        let (h, q) = read_sample_header(b, pos)?;
        let ghost hv = sample_header_view(h);
        headers.push(h);
        proof {
            assert(sample_headers_view(headers@) =~= prefix.push(hv));
            match sample_headers_from(b@, q as int, (n - i - 1) as nat) {
                FsbStep::Done(rr, qq) => {
                    assert(prefix + (seq![hv] + rr) =~= sample_headers_view(headers@) + rr);
                },
                _ => {},
            }
        }
        pos = q;
        i = i + 1;
    }
    proof {
        assert(sample_headers_view(headers@) + Seq::<(SampleHeaderBitfield, Seq<ExtraChunkView>)>::empty() =~= sample_headers_view(headers@));
    }
    Ok((headers, pos))
}

/// Reads the NUL-terminated name at `pos`.
fn read_name(b: &[u8], pos: usize) -> (r: Result<(String, usize), FsbFault>)
    ensures
        match name_at(b@, pos as int) {
            FsbStep::Done(n, q) => r matches Ok((x, p)) && x@ == n && p == q && p <= b.len(),
            step => r == Err::<(String, usize), FsbFault>(fault_of(step)),
        },
{
    if pos >= b.len() {
        return Err(FsbFault::UnexpectedEof);
    }
    let mut end = pos;
    proof {
        lemma_nul_from(b@, pos as int);
    }
    while end < b.len() && b[end] != 0
        invariant
            pos <= end <= b.len(),
            nul_from(b@, pos as int) == nul_from(b@, end as int),
        decreases b.len() - end,
    {
        end = end + 1;
    }
    if end == b.len() {
        return Err(FsbFault::UnexpectedEof);
    }
    let name = utf8_lossy(&b[pos..end]);
    Ok((name, end + 1))
}

proof fn lemma_nul_from(b: Seq<u8>, pos: int)
    requires
        0 <= pos <= b.len(),
    ensures
        pos <= nul_from(b, pos) <= b.len(),
    decreases b.len() - pos,
{
    if pos < b.len() && b[pos] != 0 {
        lemma_nul_from(b, pos + 1);
    }
}

/// Reads the name table at `base` for `n` samples.
fn read_name_table(b: &[u8], base: usize, n: usize) -> (r: Result<(Vec<NameTableEntry>, usize), FsbFault>)
    requires
        base <= b.len(),
    ensures
        match name_table_at(b@, base as int, n as nat) {
            FsbStep::Done(t, q) => r matches Ok((v, p)) && names_view(v@) == t && p == q && p <= b.len(),
            step => r == Err::<(Vec<NameTableEntry>, usize), FsbFault>(fault_of(step)),
        },
{
    let mut starts: Vec<u32> = Vec::new();
    let mut pos = base;
    let mut i: usize = 0;
    proof {
        match u32s_from(b@, base as int, n as nat) {
            FsbStep::Done(rr, q) => {
                assert(Seq::<u32>::empty() + rr =~= rr);
            },
            _ => {},
        }
    }
    while i < n
        invariant
            i <= n,
            pos <= b.len(),
            u32s_from(b@, base as int, n as nat) == glue(starts@, u32s_from(b@, pos as int, (n - i) as nat)),
        decreases n - i,
    {
        let ghost prefix = starts@;
        let v = read_u32(b, pos)?;
        starts.push(v);
        proof {
            match u32s_from(b@, pos + 4, (n - i - 1) as nat) {
                FsbStep::Done(rr, qq) => {
                    assert(prefix + (seq![v] + rr) =~= starts@ + rr);
                },
                _ => {},
            }
        }
        pos = pos + 4;
        i = i + 1;
    }
    proof {
        assert(starts@ + Seq::<u32>::empty() =~= starts@);
    }
    let ghost sv = starts@;
    let ghost p_after = pos as int;
    let mut names: Vec<NameTableEntry> = Vec::new();
    let mut j: usize = 0;
    proof {
        assert(sv.skip(0) =~= sv);
        assert(names_view(names@) =~= Seq::<(u32, Seq<char>)>::empty());
        match names_from(b@, base as int, sv, p_after) {
            FsbStep::Done(rr, q) => {
                assert(Seq::<(u32, Seq<char>)>::empty() + rr =~= rr);
            },
            _ => {},
        }
    }
    while j < starts.len()
        invariant
            j <= starts@.len(),
            sv == starts@,
            u32s_from(b@, base as int, n as nat) == FsbStep::Done(sv, p_after),
            base <= b.len(),
            pos <= b.len(),
            names_from(b@, base as int, sv, p_after) == glue(names_view(names@), names_from(b@, base as int, sv.skip(j as int), pos as int)),
        decreases starts@.len() - j,
    {
        let ghost prefix = names_view(names@);
        let at: u128 = base as u128 + starts[j] as u128;
        proof {
            assert(sv.skip(j as int)[0] == sv[j as int]);
            assert(sv.skip(j as int).drop_first() =~= sv.skip(j + 1));
        }
        if at >= b.len() as u128 {
            proof {
                assert(name_at(b@, base + sv[j as int]) is Fail);
            }
            return Err(FsbFault::UnexpectedEof);
        }
        let (name, q) = read_name(b, at as usize)?;
        let e = NameTableEntry { name_start: starts[j], name };
        let ghost ev = (e.name_start, e.name@);
        names.push(e);
        proof {
            assert(names_view(names@) =~= prefix.push(ev));
            match names_from(b@, base as int, sv.skip(j + 1), q as int) {
                FsbStep::Done(rr, qq) => {
                    assert(prefix + (seq![ev] + rr) =~= names_view(names@) + rr);
                },
                _ => {},
            }
        }
        pos = q;
        j = j + 1;
    }
    proof {
        assert(names_view(names@) + Seq::<(u32, Seq<char>)>::empty() =~= names_view(names@));
    }
    Ok((names, pos))
}

fn widen_u128(v: i32) -> (r: u128)
    ensures
        r == widen(v),
{
    if v >= 0 {
        v as u128
    } else {
        (v as i128 + 0x1_0000_0000_0000_0000i128) as u128
    }
}

/// Where the sample data starts, the headers and names ending at `cur`.
fn find_data_start(b: &[u8], cur: usize, shs: i32, nts: i32) -> (r: Result<usize, FsbFault>)
    requires
        cur <= b.len(),
    ensures
        match data_start(b@, cur as int, shs, nts) {
            FsbStep::Done(_, q) => r == Ok::<usize, FsbFault>(q as usize) && q <= b.len(),
            step => r == Err::<usize, FsbFault>(fault_of(step)),
        },
{
    let a: u128 = 60 + widen_u128(shs);
    if a > u64::MAX as u128 {
        return Err(FsbFault::Malformed);
    }
    let target: u128 = a + widen_u128(nts);
    if target > u64::MAX as u128 {
        return Err(FsbFault::Malformed);
    }
    if target <= cur as u128 {
        return Ok(cur);
    }
    if target > b.len() as u128 {
        return Err(FsbFault::UnexpectedEof);
    }
    Ok(target as usize)
}

/// Reads the Vorbis packets at `pos0`, `remaining0` bytes of the sample
/// being left.
fn read_vorbis_packets(b: &[u8], pos0: usize, remaining0: u64) -> (r: Result<Vec<VorbisPacket>, FsbFault>)
    requires
        pos0 <= b.len(),
    ensures
        match vorbis_packets_from(b@, pos0 as int, remaining0 as int) {
            FsbStep::Done(ps, _) => r matches Ok(v) && packets_view(v@) == ps,
            step => r == Err::<Vec<VorbisPacket>, FsbFault>(fault_of(step)),
        },
{
    let mut packets: Vec<VorbisPacket> = Vec::new();
    let mut pos = pos0;
    let mut remaining = remaining0;
    proof {
        assert(packets_view(packets@) =~= Seq::<(bool, u8, Seq<u8>)>::empty());
        match vorbis_packets_from(b@, pos0 as int, remaining0 as int) {
            FsbStep::Done(rr, q) => {
                assert(Seq::<(bool, u8, Seq<u8>)>::empty() + rr =~= rr);
            },
            _ => {},
        }
    }
    loop
        invariant
            pos <= b.len(),
            vorbis_packets_from(b@, pos0 as int, remaining0 as int)
                == glue(packets_view(packets@), vorbis_packets_from(b@, pos as int, remaining as int)),
        decreases remaining,
    {
        let ghost prefix = packets_view(packets@);
        if remaining == 0 || b.len() - pos < 2 {
            proof {
                assert(prefix + Seq::<(bool, u8, Seq<u8>)>::empty() =~= prefix);
            }
            return Ok(packets);
        }
        let packet_size = get_u16_le(b, pos);
        if packet_size == 0 {
            proof {
                assert(prefix + Seq::<(bool, u8, Seq<u8>)>::empty() =~= prefix);
            }
            return Ok(packets);
        }
        let r1 = if remaining >= 2 { remaining - 2 } else { 0 };
        if b.len() - pos < 3 {
            return Err(FsbFault::UnexpectedEof);
        }
        let flags = b[pos + 2];
        let r2 = if r1 >= 1 { r1 - 1 } else { 0 };
        let audio = (flags & 1) != 0;
        let rr = (flags >> 1u8) & 0x7F;
        let data_len = (packet_size - 1) as usize;
        let data = read_bytes(b, pos + 3, data_len)?;
        proof {
            if data_len > 0 {
                assert(pos + 3 + data_len <= b@.len());
            }
        }
        let r3 = if r2 >= data_len as u64 { r2 - data_len as u64 } else { 0 };
        let pk = VorbisPacket { audio, r: rr, data };
        let ghost pv = (pk.audio, pk.r, pk.data@);
        packets.push(pk);
        proof {
            assert(packets_view(packets@) =~= prefix.push(pv));
            assert(pv == ((flags & 1) != 0, (flags >> 1u8) & 0x7F, b@.subrange(pos + 3, pos + 3 + data_len)));
            match vorbis_packets_from(b@, pos + 3 + data_len, r3 as int) {
                FsbStep::Done(rest, q) => {
                    assert(prefix + (seq![pv] + rest) =~= packets_view(packets@) + rest);
                },
                _ => {},
            }
        }
        pos = pos + 3 + data_len;
        remaining = r3;
    }
}

/// Reads the data of sample `i`.
fn read_sample_data(
    b: &[u8],
    sds: usize,
    headers: &Vec<FSBSampleHeader>,
    i: usize,
    data_size: i32,
    vorbis: bool,
) -> (r: Result<SampleData, FsbFault>)
    requires
        sds <= b.len(),
        i < headers@.len(),
    ensures
        match sample_data_at(b@, sds as int, sample_headers_view(headers@), i as int, data_size, vorbis) {
            FsbStep::Done(d, _) => r matches Ok(x) && sample_data_view(x) == d,
            step => r == Err::<SampleData, FsbFault>(fault_of(step)),
        },
{
    let ghost hs = sample_headers_view(headers@);
    let start: u128 = sds as u128 + headers[i].bitfield.data_offset as u128 * 16;
    let end: u128 = if i < headers.len() - 1 {
        sds as u128 + headers[i + 1].bitfield.data_offset as u128 * 16
    } else {
        sds as u128 + widen_u128(data_size)
    };
    proof {
        assert(hs[i as int].0 == headers@[i as int].bitfield);
        if i + 1 < headers@.len() {
            assert(hs[i + 1].0 == headers@[i + 1].bitfield);
        }
    }
    if end > u64::MAX as u128 || end < start {
        return Err(FsbFault::Malformed);
    }
    let size: u128 = end - start;
    if vorbis {
        if start > b.len() as u128 {
            proof {
                assert(vorbis_packets_from(b@, start as int, size as int) == FsbStep::Done(Seq::<(bool, u8, Seq<u8>)>::empty(), start as int));
            }
            let empty: Vec<VorbisPacket> = Vec::new();
            proof {
                assert(packets_view(empty@) =~= Seq::<(bool, u8, Seq<u8>)>::empty());
            }
            return Ok(SampleData::Vorbis(empty));
        }
        let packets = read_vorbis_packets(b, start as usize, size as u64)?;
        Ok(SampleData::Vorbis(packets))
    } else {
        if size == 0 {
            let empty: Vec<u8> = Vec::new();
            proof {
                assert(empty@ =~= Seq::<u8>::empty());
            }
            return Ok(SampleData::Raw(empty));
        }
        if start > b.len() as u128 || b.len() as u128 - start < size {
            return Err(FsbFault::UnexpectedEof);
        }
        let d = read_bytes(b, start as usize, size as usize)?;
        Ok(SampleData::Raw(d))
    }
}

/// Reads the data of all samples.
fn read_sample_datas(
    b: &[u8],
    sds: usize,
    headers: &Vec<FSBSampleHeader>,
    data_size: i32,
    vorbis: bool,
) -> (r: Result<Vec<SampleData>, FsbFault>)
    requires
        sds <= b.len(),
    ensures
        match sample_datas_from(b@, sds as int, sample_headers_view(headers@), 0, data_size, vorbis) {
            FsbStep::Done(ds, _) => r matches Ok(v) && sample_datas_view(v@) == ds,
            step => r == Err::<Vec<SampleData>, FsbFault>(fault_of(step)),
        },
{
    let ghost hs = sample_headers_view(headers@);
    let mut datas: Vec<SampleData> = Vec::new();
    let mut i: usize = 0;
    proof {
        assert(sample_datas_view(datas@) =~= Seq::<SampleDataView>::empty());
        match sample_datas_from(b@, sds as int, hs, 0, data_size, vorbis) {
            FsbStep::Done(rr, q) => {
                assert(Seq::<SampleDataView>::empty() + rr =~= rr);
            },
            _ => {},
        }
    }
    while i < headers.len()
        invariant
            i <= headers@.len(),
            sds <= b.len(),
            hs == sample_headers_view(headers@),
            sample_datas_from(b@, sds as int, hs, 0, data_size, vorbis)
                == glue(sample_datas_view(datas@), sample_datas_from(b@, sds as int, hs, i as nat, data_size, vorbis)),
        decreases headers@.len() - i,
    {
        let ghost prefix = sample_datas_view(datas@);
        let d = read_sample_data(b, sds, headers, i, data_size, vorbis)?;
        let ghost dv = sample_data_view(d);
        datas.push(d);
        proof {
            assert(sample_datas_view(datas@) =~= prefix.push(dv));
            match sample_datas_from(b@, sds as int, hs, (i + 1) as nat, data_size, vorbis) {
                FsbStep::Done(rest, q) => {
                    assert(prefix + (seq![dv] + rest) =~= sample_datas_view(datas@) + rest);
                },
                _ => {},
            }
        }
        i = i + 1;
    }
    proof {
        assert(sample_datas_view(datas@) + Seq::<SampleDataView>::empty() =~= sample_datas_view(datas@));
    }
    Ok(datas)
}

/// `f` is the bank that `fsb_read` reads from `b`.
pub open spec fn fsb_matches(b: Seq<u8>, f: FSB5File) -> bool {
    match fsb_read(b) {
        FsbStep::Done((hs, nt, ds), _) => {
            &&& header_at(b, f.header)
            &&& sample_headers_view(f.sample_headers@) == hs
            &&& match (f.name_table, nt) {
                (Some(v), Some(t)) => names_view(v@) == t,
                (None, None) => true,
                _ => false,
            }
            &&& sample_datas_view(f.sample_data@) == ds
        },
        _ => false,
    }
}

impl FSB5File {
    /// Reads a bank, telling apart the data on which reading stops with a
    /// panic.
    pub fn try_read(b: &[u8]) -> (r: Result<FSB5File, FsbFault>)
        requires
            b@.len() <= 0x7FFF_FFFF_FFFF_FFFF,
        ensures
            match fsb_read(b@) {
                FsbStep::Done(_, _) => r matches Ok(f) && fsb_matches(b@, f),
                step => r == Err::<FSB5File, FsbFault>(fault_of(step)),
            },
    {
        let (header, p0) = read_header(b)?;
        let n: usize = if header.num_samples > 0 { header.num_samples as usize } else { 0 };
        let (sample_headers, p1) = read_sample_headers(b, p0, n)?;
        let (name_table, p2) = if header.name_table_size > 0 {
            let (t, q) = read_name_table(b, p1, n)?;
            (Some(t), q)
        } else {
            (None, p1)
        };
        let sds = find_data_start(b, p2, header.sample_header_size, header.name_table_size)?;
        let vorbis = header.mode == Mode::VORBIS;
        let sample_data = read_sample_datas(b, sds, &sample_headers, header.data_size, vorbis)?;
        Ok(FSB5File { header, sample_headers, name_table, sample_data })
    }

    /// Reads a bank: the header, the sample headers with their extra
    /// chunks, the name table where the header gives it a size, padding up
    /// to the data, and each sample's data (as Vorbis packets in a Vorbis
    /// bank). Fails where the data ends early or the codec is unknown. On
    /// data where reading stops with a panic (see `try_read`) it is not to
    /// be called.
    pub fn read(b: &[u8]) -> (r: Result<FSB5File, FsbError>)
        requires
            b@.len() <= 0x7FFF_FFFF_FFFF_FFFF,
            !(fsb_read(b@) is Crash),
        ensures
            match fsb_read(b@) {
                FsbStep::Done(_, _) => r matches Ok(f) && fsb_matches(b@, f),
                FsbStep::Fail(e) => r == Err::<FSB5File, FsbError>(e),
                FsbStep::Crash => false,
            },
    {
        match Self::try_read(b) {
            Ok(f) => Ok(f),
            Err(FsbFault::InvalidMode) => Err(FsbError::InvalidMode),
            Err(_) => Err(FsbError::UnexpectedEof),
        }
    }
}

} // verus!
