//! XPM progressive morph motion files: an eight-byte header, then chunks,
//! each a twelve-byte frame (kind, size, version) and the record of that
//! kind. A record is read from where its frame ends and may run past the
//! size the frame gives; a record that cannot be read is skipped by its
//! size. Components that the format stores as 32-bit floats are kept here as
//! their bits, as stored.

use vstd::prelude::*;
use crate::bytes::{le16, le32};
use crate::decode::{fits, lstr_end, lstr_at, list_end, list_at, Record, take_u8, take_u16, take_u32, take_lstr, read_list, read_strs4};
use crate::xac::{fixed_and_four_texts_end, four_texts_at, frame_id, frame_size};
pub use crate::xac::FileChunk;

verus! {

/// Kinds of XPM chunks.
#[derive(Debug, Clone, Copy, PartialEq, Eq, Structural)]
pub enum XPMChunk {
    SUBMOTION,
    INFO,
    /// Shared with the other formats.
    MotionEventTable,
    SUBMOTIONS,
}

impl XPMChunk {
    /// The number that stands for the kind in a chunk's frame.
    pub fn value(&self) -> (r: u32)
        ensures
            r == match *self {
                XPMChunk::SUBMOTION => 100u32,
                XPMChunk::INFO => 101u32,
                XPMChunk::MotionEventTable => 50u32,
                XPMChunk::SUBMOTIONS => 102u32,
            },
    {
        match self {
            XPMChunk::SUBMOTION => 100,
            XPMChunk::INFO => 101,
            XPMChunk::MotionEventTable => 50,
            XPMChunk::SUBMOTIONS => 102,
        }
    }
}

/// The file header: the four bytes "XPM ", the version, the byte order flag
/// and the multiplication order.
pub struct XPMHeader {
    pub fourcc: [u8; 4],
    pub hi_version: u8,
    pub lo_version: u8,
    pub endian_type: u8,
    pub mul_order: u8,
}

impl Record for XPMHeader {
    open spec fn end(b: Seq<u8>, p: int, ctx: u32) -> Option<int> {
        if fits(b, p, 8) { Some(p + 8) } else { None }
    }

    open spec fn at(b: Seq<u8>, p: int, ctx: u32, v: XPMHeader) -> bool {
        &&& v.fourcc@ == b.subrange(p, p + 4)
        &&& v.hi_version == b[p + 4]
        &&& v.lo_version == b[p + 5]
        &&& v.endian_type == b[p + 6]
        &&& v.mul_order == b[p + 7]
    }

    fn read(b: &[u8], p: usize, ctx: u32) -> (r: Option<(XPMHeader, usize)>) {
        if p > b.len() || b.len() - p < 8 {
            return None;
        }
        let fourcc = [b[p], b[p + 1], b[p + 2], b[p + 3]];
        assert(fourcc@ =~= b@.subrange(p as int, p + 4));
        Some((XPMHeader {
            fourcc,
            hi_version: b[p + 4],
            lo_version: b[p + 5],
            endian_type: b[p + 6],
            mul_order: b[p + 7],
        }, p + 8))
    }
}

/// The motion's info.
pub struct XPMInfo {
    pub motion_fps: u32,
    pub exporter_high_version: u8,
    pub exporter_low_version: u8,
    pub padding: u16,
    pub source_app: String,
    pub original_filename: String,
    pub compilation_date: String,
    pub motion_name: String,
}

impl Record for XPMInfo {
    open spec fn end(b: Seq<u8>, p: int, ctx: u32) -> Option<int> {
        fixed_and_four_texts_end(b, p, 8)
    }

    open spec fn at(b: Seq<u8>, p: int, ctx: u32, v: XPMInfo) -> bool {
        &&& v.motion_fps == le32(b, p)
        &&& v.exporter_high_version == b[p + 4]
        &&& v.exporter_low_version == b[p + 5]
        &&& v.padding == le16(b, p + 6)
        &&& four_texts_at(b, p + 8, v.source_app, v.original_filename, v.compilation_date, v.motion_name)
    }

    fn read(b: &[u8], p: usize, ctx: u32) -> (r: Option<(XPMInfo, usize)>) {
        let (motion_fps, q) = take_u32(b, p)?;
        let (exporter_high_version, q) = take_u8(b, q)?;
        let (exporter_low_version, q) = take_u8(b, q)?;
        let (padding, q) = take_u16(b, q)?;
        let ((source_app, original_filename, compilation_date, motion_name), q) = read_strs4(b, q)?;
        Some((XPMInfo {
            motion_fps,
            exporter_high_version,
            exporter_low_version,
            padding,
            source_app,
            original_filename,
            compilation_date,
            motion_name,
        }, q))
    }
}

/// A keyframe with a time and a value, both the bits of 32-bit floats.
pub struct XPMFloatKey {
    pub time: u32,
    pub value: u32,
}

impl Record for XPMFloatKey {
    open spec fn end(b: Seq<u8>, p: int, ctx: u32) -> Option<int> {
        if fits(b, p, 8) { Some(p + 8) } else { None }
    }

    open spec fn at(b: Seq<u8>, p: int, ctx: u32, v: XPMFloatKey) -> bool {
        &&& v.time == le32(b, p)
        &&& v.value == le32(b, p + 4)
    }

    fn read(b: &[u8], p: usize, ctx: u32) -> (r: Option<(XPMFloatKey, usize)>) {
        let (time, q) = take_u32(b, p)?;
        let (value, q) = take_u32(b, q)?;
        Some((XPMFloatKey { time, value }, q))
    }
}

/// A keyframe with a compressed 16-bit value; `time` holds the bits of a
/// 32-bit float.
pub struct XPMUnsignedShortKey {
    pub time: u32,
    pub value: u16,
    pub padding: u16,
}

impl Record for XPMUnsignedShortKey {
    open spec fn end(b: Seq<u8>, p: int, ctx: u32) -> Option<int> {
        if fits(b, p, 8) { Some(p + 8) } else { None }
    }

    open spec fn at(b: Seq<u8>, p: int, ctx: u32, v: XPMUnsignedShortKey) -> bool {
        &&& v.time == le32(b, p)
        &&& v.value == le16(b, p + 4)
        &&& v.padding == le16(b, p + 6)
    }

    fn read(b: &[u8], p: usize, ctx: u32) -> (r: Option<(XPMUnsignedShortKey, usize)>) {
        let (time, q) = take_u32(b, p)?;
        let (value, q) = take_u16(b, q)?;
        let (padding, q) = take_u16(b, q)?;
        Some((XPMUnsignedShortKey { time, value, padding }, q))
    }
}

/// A progressive morph submotion: its weights (bits of 32-bit floats), its
/// phoneme set (0 for a plain morph target), the number of keys, its name,
/// then the keys.
pub struct XPMProgressiveSubMotion {
    pub pose_weight: u32,
    pub min_weight: u32,
    pub max_weight: u32,
    pub phoneme_set: u32,
    pub num_keys: u32,
    pub name: String,
    pub xpm_key: Vec<XPMUnsignedShortKey>,
}

impl Record for XPMProgressiveSubMotion {
    open spec fn end(b: Seq<u8>, p: int, ctx: u32) -> Option<int> {
        if !fits(b, p, 20) {
            None
        } else {
            match lstr_end(b, p + 20) {
                Some(q) => list_end::<XPMUnsignedShortKey>(b, q, 0, le32(b, p + 16) as nat),
                None => None,
            }
        }
    }

    open spec fn at(b: Seq<u8>, p: int, ctx: u32, v: XPMProgressiveSubMotion) -> bool {
        &&& v.pose_weight == le32(b, p)
        &&& v.min_weight == le32(b, p + 4)
        &&& v.max_weight == le32(b, p + 8)
        &&& v.phoneme_set == le32(b, p + 12)
        &&& v.num_keys == le32(b, p + 16)
        &&& v.name@ == lstr_at(b, p + 20)
        &&& list_at::<XPMUnsignedShortKey>(
            b,
            lstr_end(b, p + 20)->0,
            0,
            le32(b, p + 16) as nat,
            v.xpm_key@,
        )
    }

    fn read(b: &[u8], p: usize, ctx: u32) -> (r: Option<(XPMProgressiveSubMotion, usize)>) {
        let (pose_weight, q) = take_u32(b, p)?;
        let (min_weight, q) = take_u32(b, q)?;
        let (max_weight, q) = take_u32(b, q)?;
        let (phoneme_set, q) = take_u32(b, q)?;
        let (num_keys, q) = take_u32(b, q)?;
        let (name, q) = take_lstr(b, q)?;
        let (xpm_key, q) = read_list::<XPMUnsignedShortKey>(b, q, 0, num_keys)?;
        Some((XPMProgressiveSubMotion {
            pose_weight,
            min_weight,
            max_weight,
            phoneme_set,
            num_keys,
            name,
            xpm_key,
        }, q))
    }
}

/// The submotions: their number, then the submotions.
pub struct XPMSubMotions {
    pub num_sub_motions: u32,
    pub progressive_sub_motions: Vec<XPMProgressiveSubMotion>,
}

impl Record for XPMSubMotions {
    open spec fn end(b: Seq<u8>, p: int, ctx: u32) -> Option<int> {
        if fits(b, p, 4) {
            list_end::<XPMProgressiveSubMotion>(b, p + 4, 0, le32(b, p) as nat)
        } else {
            None
        }
    }

    open spec fn at(b: Seq<u8>, p: int, ctx: u32, v: XPMSubMotions) -> bool {
        &&& v.num_sub_motions == le32(b, p)
        &&& list_at::<XPMProgressiveSubMotion>(
            b,
            p + 4,
            0,
            le32(b, p) as nat,
            v.progressive_sub_motions@,
        )
    }

    fn read(b: &[u8], p: usize, ctx: u32) -> (r: Option<(XPMSubMotions, usize)>) {
        let (num_sub_motions, q) = take_u32(b, p)?;
        let (progressive_sub_motions, q) = read_list::<XPMProgressiveSubMotion>(
            b,
            q,
            0,
            num_sub_motions,
        )?;
        Some((XPMSubMotions { num_sub_motions, progressive_sub_motions }, q))
    }
}

// ------------------------------------------------------------------ chunks

/// The record of one chunk, by kind.
pub enum XPMChunkData {
    XPMInfo(XPMInfo),
    XPMSubMotions(XPMSubMotions),
}

/// Where the record of a chunk of kind `id` read at `p` ends, if the kind is
/// read (info and submotions, in any version) and the data holds it.
pub open spec fn xpm_chunk_end(id: u32, b: Seq<u8>, p: int) -> Option<int> {
    if id == 101 {
        XPMInfo::end(b, p, 0)
    } else if id == 102 {
        XPMSubMotions::end(b, p, 0)
    } else {
        None
    }
}

/// `v` is the record of kind `id` read at `p`.
pub open spec fn xpm_chunk_data_at(id: u32, b: Seq<u8>, p: int, v: XPMChunkData) -> bool {
    match v {
        XPMChunkData::XPMInfo(x) => id == 101 && XPMInfo::at(b, p, 0, x),
        XPMChunkData::XPMSubMotions(x) => id == 102 && XPMSubMotions::at(b, p, 0, x),
    }
}

/// The record of a chunk of kind `id`, read at `p` with the position after
/// it; nothing for a kind that is not read or data that ends before the
/// record does.
fn parse_chunk_data(id: u32, b: &[u8], p: usize) -> (r: Option<(XPMChunkData, usize)>)
    ensures
        r is Some <==> xpm_chunk_end(id, b@, p as int) is Some,
        r is Some ==> (r->0).1 == xpm_chunk_end(id, b@, p as int)->0 && xpm_chunk_data_at(
            id,
            b@,
            p as int,
            (r->0).0,
        ),
{
    if id == XPMChunk::INFO.value() {
        let (x, q) = XPMInfo::read(b, p, 0)?;
        Some((XPMChunkData::XPMInfo(x), q))
    } else if id == XPMChunk::SUBMOTIONS.value() {
        let (x, q) = XPMSubMotions::read(b, p, 0)?;
        Some((XPMChunkData::XPMSubMotions(x), q))
    } else {
        None
    }
}

/// Where reading goes on after the frame at `p`: the end of the size the
/// frame gives, or the end of its record where that lies further.
pub open spec fn xpm_next(b: Seq<u8>, p: int) -> int {
    let sized = p + 12 + frame_size(b, p);
    match xpm_chunk_end(frame_id(b, p), b, p + 12) {
        Some(e) => if e < sized { sized } else { e },
        None => sized,
    }
}

/// The positions of the frames whose records are read, from `p` on: frames
/// follow each other while twelve bytes are left for one; a frame whose
/// record cannot be read is skipped.
pub open spec fn xpm_chunks_from(b: Seq<u8>, p: int) -> Seq<int>
    decreases b.len() - p,
{
    if p < 0 || p > b.len() || b.len() - p < 12 {
        Seq::empty()
    } else {
        let rest = if xpm_next(b, p) <= b.len() {
            xpm_chunks_from(b, xpm_next(b, p))
        } else {
            Seq::empty()
        };
        if xpm_chunk_end(frame_id(b, p), b, p + 12) is Some {
            seq![p] + rest
        } else {
            rest
        }
    }
}

/// A chunk: its frame and its record.
pub struct XPMChunkEntry {
    pub chunk: FileChunk,
    pub chunk_data: XPMChunkData,
}

/// A whole file: its header and the chunks whose records were read, in file
/// order.
pub struct XPMRoot {
    pub header: XPMHeader,
    pub chunks: Vec<XPMChunkEntry>,
}

/// Why a file cannot be read.
#[derive(Debug, Clone, Copy, PartialEq, Eq, Structural)]
pub enum XpmError {
    /// The data is shorter than the header.
    Header,
}

/// `e` is the chunk framed at `p`.
pub open spec fn xpm_entry_at(b: Seq<u8>, p: int, e: XPMChunkEntry) -> bool {
    &&& FileChunk::at(b, p, 0, e.chunk)
    &&& xpm_chunk_data_at(frame_id(b, p), b, p + 12, e.chunk_data)
}

/// `entries` are the chunks framed at the positions `starts`.
pub open spec fn xpm_entries_at(b: Seq<u8>, starts: Seq<int>, entries: Seq<XPMChunkEntry>) -> bool {
    &&& entries.len() == starts.len()
    &&& forall|i: int| 0 <= i < starts.len() ==> xpm_entry_at(b, starts[i], #[trigger] entries[i])
}

/// Reads the chunks from `p` to the end, skipping those whose records
/// cannot be read.
#[verifier::rlimit(40)]
fn read_chunks(b: &[u8], p: usize) -> (r: Vec<XPMChunkEntry>)
    ensures
        xpm_entries_at(b@, xpm_chunks_from(b@, p as int), r@),
{
    let mut chunks: Vec<XPMChunkEntry> = Vec::new();
    let mut pos: usize = p;
    let ghost mut starts: Seq<int> = Seq::empty();
    loop
        invariant
            xpm_chunks_from(b@, p as int) == starts + xpm_chunks_from(b@, pos as int),
            xpm_entries_at(b@, starts, chunks@),
        decreases b@.len() - pos,
    {
        if pos > b.len() || b.len() - pos < 12 {
            assert(starts + Seq::<int>::empty() =~= starts);
            return chunks;
        }
        let (chunk, start) = FileChunk::read(b, pos, 0).unwrap();
        let parsed = parse_chunk_data(chunk.chunk_id, b, start);
        let size = chunk.size_in_bytes as usize;
        let ghost old_starts = starts;
        let ghost rest = if xpm_next(b@, pos as int) <= b@.len() {
            xpm_chunks_from(b@, xpm_next(b@, pos as int))
        } else {
            Seq::<int>::empty()
        };
        let next: usize = match parsed {
            Some((chunk_data, e)) => {
                proof {
                    starts = starts.push(pos as int);
                    assert(old_starts + (seq![pos as int] + rest) =~= starts + rest);
                }
                chunks.push(XPMChunkEntry { chunk, chunk_data });
                assert(xpm_entries_at(b@, starts, chunks@)) by {
                    assert forall|i: int| 0 <= i < starts.len() implies xpm_entry_at(
                        b@,
                        starts[i],
                        #[trigger] chunks@[i],
                    ) by {
                        if i < old_starts.len() {
                            assert(starts[i] == old_starts[i]);
                        }
                    }
                }
                if size > b.len() - start {
                    assert(starts + Seq::<int>::empty() =~= starts);
                    return chunks;
                }
                if e < start + size {
                    start + size
                } else {
                    e
                }
            },
            None => {
                if size > b.len() - start {
                    return chunks;
                }
                start + size
            },
        };
        assert(next == xpm_next(b@, pos as int));
        pos = next;
    }
}

/// `r` is the file that `b` holds: the header at the start and the chunks
/// read from after it.
pub open spec fn xpm_root_at(b: Seq<u8>, r: XPMRoot) -> bool {
    &&& XPMHeader::at(b, 0, 0, r.header)
    &&& xpm_entries_at(b, xpm_chunks_from(b, 8), r.chunks@)
}

impl XPMRoot {
    /// Reads a file: the header, then the chunks while twelve bytes are left
    /// for a frame. A chunk of another kind than info or submotions, or
    /// whose record the data does not hold, is skipped by the size its frame
    /// gives. Fails only where the data is shorter than the header.
    pub fn from_bytes(b: &[u8]) -> (r: Result<XPMRoot, XpmError>)
        ensures
            b@.len() < 8 ==> r == Err::<XPMRoot, XpmError>(XpmError::Header),
            b@.len() >= 8 ==> (r matches Ok(root) && xpm_root_at(b@, root)),
    {
        let (header, p) = match XPMHeader::read(b, 0, 0) {
            Some(h) => h,
            None => {
                return Err(XpmError::Header);
            },
        };
        let chunks = read_chunks(b, p);
        Ok(XPMRoot { header, chunks })
    }
}

} // verus!
