//! XSM skeletal motion files: an eight-byte header, then chunks, each a
//! twelve-byte frame (kind, size, version) and the record of that kind and
//! version. A record is read from where its frame ends and may run past the
//! size the frame gives; a record that cannot be read is skipped by its
//! size. Components that the format stores as 32-bit floats are kept here as
//! their bits, as stored.

use vstd::prelude::*;
use crate::bytes::{le16, le32};
use crate::decode::{
    fits, lstr_end, lstr_at, list_end, list_at, Record, take_u8, take_u16, take_u32, take_bytes,
    take_lstr, take_arr2, read_list, read_strs4,
};
use crate::xac::{fixed_and_four_texts_end, four_texts_at, frame_id, frame_size, frame_version};
pub use crate::xac::{FileChunk, FileVector3, FileQuaternion, File16BitQuaternion};

verus! {

// ------------------------------------------------------------------ kinds

/// Kinds of XSM chunks.
#[derive(Debug, Clone, Copy, PartialEq, Eq, Structural)]
pub enum XSMChunk {
    Submotion,
    Info,
    /// Shared with the other formats.
    MotionEventTable,
    Submotions,
    WaveletInfo,
}

impl XSMChunk {
    /// The number that stands for the kind in a chunk's frame.
    pub fn value(&self) -> (r: u32)
        ensures
            r == match *self {
                XSMChunk::Submotion => 200u32,
                XSMChunk::Info => 201u32,
                XSMChunk::MotionEventTable => 50u32,
                XSMChunk::Submotions => 202u32,
                XSMChunk::WaveletInfo => 203u32,
            },
    {
        match self {
            XSMChunk::Submotion => 200,
            XSMChunk::Info => 201,
            XSMChunk::MotionEventTable => 50,
            XSMChunk::Submotions => 202,
            XSMChunk::WaveletInfo => 203,
        }
    }
}

/// Wavelets used to compress motions.
#[derive(Debug, Clone, Copy, PartialEq, Eq, Structural)]
pub enum WaveletType {
    Haar,
    D4,
    CDF97,
}

impl WaveletType {
    /// The byte that stands for the wavelet in a file.
    pub fn value(&self) -> (r: u8)
        ensures
            r == match *self {
                WaveletType::Haar => 0u8,
                WaveletType::D4 => 1u8,
                WaveletType::CDF97 => 2u8,
            },
    {
        match self {
            WaveletType::Haar => 0,
            WaveletType::D4 => 1,
            WaveletType::CDF97 => 2,
        }
    }
}

/// Coders for quantized data.
#[derive(Debug, Clone, Copy, PartialEq, Eq, Structural)]
pub enum CompressorType {
    Huffman,
    Rice,
}

impl CompressorType {
    /// The byte that stands for the coder in a file.
    pub fn value(&self) -> (r: u8)
        ensures
            r == match *self {
                CompressorType::Huffman => 0u8,
                CompressorType::Rice => 1u8,
            },
    {
        match self {
            CompressorType::Huffman => 0,
            CompressorType::Rice => 1,
        }
    }
}

// ------------------------------------------------------------------ header and info

/// The file header: the four bytes "XSM ", the version, the byte order flag
/// and the multiplication order.
pub struct XSMHeader {
    pub fourcc: [u8; 4],
    pub hi_version: u8,
    pub lo_version: u8,
    pub endian_type: u8,
    pub mul_order: u8,
}

impl Record for XSMHeader {
    open spec fn end(b: Seq<u8>, p: int, ctx: u32) -> Option<int> {
        if fits(b, p, 8) { Some(p + 8) } else { None }
    }

    open spec fn at(b: Seq<u8>, p: int, ctx: u32, v: XSMHeader) -> bool {
        &&& v.fourcc@ == b.subrange(p, p + 4)
        &&& v.hi_version == b[p + 4]
        &&& v.lo_version == b[p + 5]
        &&& v.endian_type == b[p + 6]
        &&& v.mul_order == b[p + 7]
    }

    fn read(b: &[u8], p: usize, ctx: u32) -> (r: Option<(XSMHeader, usize)>) {
        if p > b.len() || b.len() - p < 8 {
            return None;
        }
        let fourcc = [b[p], b[p + 1], b[p + 2], b[p + 3]];
        assert(fourcc@ =~= b@.subrange(p as int, p + 4));
        Some((XSMHeader {
            fourcc,
            hi_version: b[p + 4],
            lo_version: b[p + 5],
            endian_type: b[p + 6],
            mul_order: b[p + 7],
        }, p + 8))
    }
}

/// The motion's info, first version.
pub struct XSMInfo {
    pub motion_fps: u32,
    pub exporter_high_version: u8,
    pub exporter_low_version: u8,
    pub padding: [u8; 2],
    pub source_app: String,
    pub original_filename: String,
    pub compilation_date: String,
    pub motion_name: String,
}

impl Record for XSMInfo {
    open spec fn end(b: Seq<u8>, p: int, ctx: u32) -> Option<int> {
        fixed_and_four_texts_end(b, p, 8)
    }

    open spec fn at(b: Seq<u8>, p: int, ctx: u32, v: XSMInfo) -> bool {
        &&& v.motion_fps == le32(b, p)
        &&& v.exporter_high_version == b[p + 4]
        &&& v.exporter_low_version == b[p + 5]
        &&& v.padding@ == b.subrange(p + 6, p + 8)
        &&& four_texts_at(b, p + 8, v.source_app, v.original_filename, v.compilation_date, v.motion_name)
    }

    fn read(b: &[u8], p: usize, ctx: u32) -> (r: Option<(XSMInfo, usize)>) {
        let (motion_fps, q) = take_u32(b, p)?;
        let (exporter_high_version, q) = take_u8(b, q)?;
        let (exporter_low_version, q) = take_u8(b, q)?;
        let (padding, q) = take_arr2(b, q)?;
        let ((source_app, original_filename, compilation_date, motion_name), q) = read_strs4(b, q)?;
        Some((XSMInfo {
            motion_fps,
            exporter_high_version,
            exporter_low_version,
            padding,
            source_app,
            original_filename,
            compilation_date,
            motion_name,
        }, q))
    }
}

/// The motion's info, second version; `importance_factor` and
/// `max_acceptable_error` hold the bits of 32-bit floats.
pub struct XSMInfo2 {
    pub importance_factor: u32,
    pub max_acceptable_error: u32,
    pub motion_fps: u32,
    pub exporter_high_version: u8,
    pub exporter_low_version: u8,
    pub padding: [u8; 2],
    pub source_app: String,
    pub original_filename: String,
    pub compilation_date: String,
    pub motion_name: String,
}

impl Record for XSMInfo2 {
    open spec fn end(b: Seq<u8>, p: int, ctx: u32) -> Option<int> {
        fixed_and_four_texts_end(b, p, 16)
    }

    open spec fn at(b: Seq<u8>, p: int, ctx: u32, v: XSMInfo2) -> bool {
        &&& v.importance_factor == le32(b, p)
        &&& v.max_acceptable_error == le32(b, p + 4)
        &&& v.motion_fps == le32(b, p + 8)
        &&& v.exporter_high_version == b[p + 12]
        &&& v.exporter_low_version == b[p + 13]
        &&& v.padding@ == b.subrange(p + 14, p + 16)
        &&& four_texts_at(b, p + 16, v.source_app, v.original_filename, v.compilation_date, v.motion_name)
    }

    fn read(b: &[u8], p: usize, ctx: u32) -> (r: Option<(XSMInfo2, usize)>) {
        let (importance_factor, q) = take_u32(b, p)?;
        let (max_acceptable_error, q) = take_u32(b, q)?;
        let (motion_fps, q) = take_u32(b, q)?;
        let (exporter_high_version, q) = take_u8(b, q)?;
        let (exporter_low_version, q) = take_u8(b, q)?;
        let (padding, q) = take_arr2(b, q)?;
        let ((source_app, original_filename, compilation_date, motion_name), q) = read_strs4(b, q)?;
        Some((XSMInfo2 {
            importance_factor,
            max_acceptable_error,
            motion_fps,
            exporter_high_version,
            exporter_low_version,
            padding,
            source_app,
            original_filename,
            compilation_date,
            motion_name,
        }, q))
    }
}

/// The motion's info, third version: as the second, with the motion
/// extraction mask.
pub struct XSMInfo3 {
    pub importance_factor: u32,
    pub max_acceptable_error: u32,
    pub motion_fps: u32,
    pub motion_extraction_mask: u32,
    pub exporter_high_version: u8,
    pub exporter_low_version: u8,
    pub padding: [u8; 2],
    pub source_app: String,
    pub original_filename: String,
    pub compilation_date: String,
    pub motion_name: String,
}

impl Record for XSMInfo3 {
    open spec fn end(b: Seq<u8>, p: int, ctx: u32) -> Option<int> {
        fixed_and_four_texts_end(b, p, 20)
    }

    open spec fn at(b: Seq<u8>, p: int, ctx: u32, v: XSMInfo3) -> bool {
        &&& v.importance_factor == le32(b, p)
        &&& v.max_acceptable_error == le32(b, p + 4)
        &&& v.motion_fps == le32(b, p + 8)
        &&& v.motion_extraction_mask == le32(b, p + 12)
        &&& v.exporter_high_version == b[p + 16]
        &&& v.exporter_low_version == b[p + 17]
        &&& v.padding@ == b.subrange(p + 18, p + 20)
        &&& four_texts_at(b, p + 20, v.source_app, v.original_filename, v.compilation_date, v.motion_name)
    }

    fn read(b: &[u8], p: usize, ctx: u32) -> (r: Option<(XSMInfo3, usize)>) {
        let (importance_factor, q) = take_u32(b, p)?;
        let (max_acceptable_error, q) = take_u32(b, q)?;
        let (motion_fps, q) = take_u32(b, q)?;
        let (motion_extraction_mask, q) = take_u32(b, q)?;
        let (exporter_high_version, q) = take_u8(b, q)?;
        let (exporter_low_version, q) = take_u8(b, q)?;
        let (padding, q) = take_arr2(b, q)?;
        let ((source_app, original_filename, compilation_date, motion_name), q) = read_strs4(b, q)?;
        Some((XSMInfo3 {
            importance_factor,
            max_acceptable_error,
            motion_fps,
            motion_extraction_mask,
            exporter_high_version,
            exporter_low_version,
            padding,
            source_app,
            original_filename,
            compilation_date,
            motion_name,
        }, q))
    }
}

// ------------------------------------------------------------------ keys

/// A vector keyframe; the vector's components and `time` hold the bits of
/// 32-bit floats.
pub struct XSMVector3Key {
    pub value: FileVector3,
    pub time: u32,
}

impl Record for XSMVector3Key {
    open spec fn end(b: Seq<u8>, p: int, ctx: u32) -> Option<int> {
        if fits(b, p, 16) { Some(p + 16) } else { None }
    }

    open spec fn at(b: Seq<u8>, p: int, ctx: u32, v: XSMVector3Key) -> bool {
        &&& FileVector3::at(b, p, 0, v.value)
        &&& v.time == le32(b, p + 12)
    }

    fn read(b: &[u8], p: usize, ctx: u32) -> (r: Option<(XSMVector3Key, usize)>) {
        let (value, q) = FileVector3::read(b, p, 0)?;
        let (time, q) = take_u32(b, q)?;
        Some((XSMVector3Key { value, time }, q))
    }
}

/// A rotation keyframe; the quaternion's components and `time` hold the
/// bits of 32-bit floats.
pub struct XSMQuaternionKey {
    pub value: FileQuaternion,
    pub time: u32,
}

impl Record for XSMQuaternionKey {
    open spec fn end(b: Seq<u8>, p: int, ctx: u32) -> Option<int> {
        if fits(b, p, 20) { Some(p + 20) } else { None }
    }

    open spec fn at(b: Seq<u8>, p: int, ctx: u32, v: XSMQuaternionKey) -> bool {
        &&& FileQuaternion::at(b, p, 0, v.value)
        &&& v.time == le32(b, p + 16)
    }

    fn read(b: &[u8], p: usize, ctx: u32) -> (r: Option<(XSMQuaternionKey, usize)>) {
        let (value, q) = FileQuaternion::read(b, p, 0)?;
        let (time, q) = take_u32(b, q)?;
        Some((XSMQuaternionKey { value, time }, q))
    }
}

/// A compressed rotation keyframe; `time` holds the bits of a 32-bit float.
pub struct XSM16BitQuaternionKey {
    pub value: File16BitQuaternion,
    pub time: u32,
}

impl Record for XSM16BitQuaternionKey {
    open spec fn end(b: Seq<u8>, p: int, ctx: u32) -> Option<int> {
        if fits(b, p, 12) { Some(p + 12) } else { None }
    }

    open spec fn at(b: Seq<u8>, p: int, ctx: u32, v: XSM16BitQuaternionKey) -> bool {
        &&& File16BitQuaternion::at(b, p, 0, v.value)
        &&& v.time == le32(b, p + 8)
    }

    fn read(b: &[u8], p: usize, ctx: u32) -> (r: Option<(XSM16BitQuaternionKey, usize)>) {
        let (value, q) = File16BitQuaternion::read(b, p, 0)?;
        let (time, q) = take_u32(b, q)?;
        Some((XSM16BitQuaternionKey { value, time }, q))
    }
}

/// The four key runs of a submotion (positions, rotations, scales, scale
/// rotations), rotations of type `R`.
pub struct Keys<R> {
    pub pos: Vec<XSMVector3Key>,
    pub rot: Vec<R>,
    pub scale: Vec<XSMVector3Key>,
    pub scale_rot: Vec<R>,
}

/// Where the four key runs from `p` end, with counts `n`.
pub open spec fn keys_end<R: Record>(b: Seq<u8>, p: int, n: (nat, nat, nat, nat)) -> Option<int> {
    match list_end::<XSMVector3Key>(b, p, 0, n.0) {
        None => None,
        Some(q1) => match list_end::<R>(b, q1, 0, n.1) {
            None => None,
            Some(q2) => match list_end::<XSMVector3Key>(b, q2, 0, n.2) {
                None => None,
                Some(q3) => list_end::<R>(b, q3, 0, n.3),
            },
        },
    }
}

/// `k` holds the four key runs from `p` with counts `n`.
pub open spec fn keys_at<R: Record>(b: Seq<u8>, p: int, n: (nat, nat, nat, nat), k: Keys<R>) -> bool {
    let q1 = list_end::<XSMVector3Key>(b, p, 0, n.0)->0;
    let q2 = list_end::<R>(b, q1, 0, n.1)->0;
    let q3 = list_end::<XSMVector3Key>(b, q2, 0, n.2)->0;
    &&& list_at::<XSMVector3Key>(b, p, 0, n.0, k.pos@)
    &&& list_at::<R>(b, q1, 0, n.1, k.rot@)
    &&& list_at::<XSMVector3Key>(b, q2, 0, n.2, k.scale@)
    &&& list_at::<R>(b, q3, 0, n.3, k.scale_rot@)
}

fn read_keys<R: Record>(b: &[u8], p: usize, n: (u32, u32, u32, u32)) -> (r: Option<(Keys<R>, usize)>)
    ensures
        r is Some <==> keys_end::<R>(b@, p as int, (n.0 as nat, n.1 as nat, n.2 as nat, n.3 as nat)) is Some,
        r is Some ==> {
            let counts = (n.0 as nat, n.1 as nat, n.2 as nat, n.3 as nat);
            &&& (r->0).1 == keys_end::<R>(b@, p as int, counts)->0
            &&& keys_at::<R>(b@, p as int, counts, (r->0).0)
        },
{
    let (pos, q) = read_list::<XSMVector3Key>(b, p, 0, n.0)?;
    let (rot, q) = read_list::<R>(b, q, 0, n.1)?;
    let (scale, q) = read_list::<XSMVector3Key>(b, q, 0, n.2)?;
    let (scale_rot, q) = read_list::<R>(b, q, 0, n.3)?;
    Some((Keys { pos, rot, scale, scale_rot }, q))
}

/// The four key counts stored from `p` on.
pub open spec fn counts4(b: Seq<u8>, p: int) -> (nat, nat, nat, nat) {
    (le32(b, p) as nat, le32(b, p + 4) as nat, le32(b, p + 8) as nat, le32(b, p + 12) as nat)
}

/// Where a fixed part of `n` bytes at `p`, a name and the key runs (counts
/// at `c`) end.
pub open spec fn submotion_end<R: Record>(b: Seq<u8>, p: int, n: int, c: int) -> Option<int> {
    if !fits(b, p, n) {
        None
    } else {
        match lstr_end(b, p + n) {
            Some(q) => keys_end::<R>(b, q, counts4(b, c)),
            None => None,
        }
    }
}

// ------------------------------------------------------------------ submotions

/// The pose a submotion starts with, at `p`: four rotations (pose, bind
/// pose, pose scale, bind pose scale), then four vectors (pose position,
/// pose scale, bind pose position, bind pose scale).
pub open spec fn pose_at(
    b: Seq<u8>,
    p: int,
    r: (FileQuaternion, FileQuaternion, FileQuaternion, FileQuaternion),
    v: (FileVector3, FileVector3, FileVector3, FileVector3),
) -> bool {
    &&& FileQuaternion::at(b, p, 0, r.0)
    &&& FileQuaternion::at(b, p + 16, 0, r.1)
    &&& FileQuaternion::at(b, p + 32, 0, r.2)
    &&& FileQuaternion::at(b, p + 48, 0, r.3)
    &&& FileVector3::at(b, p + 64, 0, v.0)
    &&& FileVector3::at(b, p + 76, 0, v.1)
    &&& FileVector3::at(b, p + 88, 0, v.2)
    &&& FileVector3::at(b, p + 100, 0, v.3)
}

/// The pose of a skeletal submotion read at `p` follows the stored order:
/// the pose, bind pose, pose scale and bind pose scale rotations from bytes
/// 0, 16, 32 and 48 of the record, then the pose position, pose scale,
/// bind pose position and bind pose scale from bytes 64, 76, 88 and 100,
/// each component a little-endian word.
pub proof fn law_submotion_pose_in_stored_order(b: Seq<u8>, p: int, ctx: u32, v: XSMSkeletalSubMotion)
    requires
        XSMSkeletalSubMotion::at(b, p, ctx, v),
    ensures
        v.pose_rot.x == le32(b, p) && v.pose_rot.w == le32(b, p + 12),
        v.bind_pose_rot.x == le32(b, p + 16) && v.bind_pose_rot.w == le32(b, p + 28),
        v.pose_scale_rot.x == le32(b, p + 32) && v.pose_scale_rot.w == le32(b, p + 44),
        v.bind_pose_scale_rot.x == le32(b, p + 48) && v.bind_pose_scale_rot.w == le32(b, p + 60),
        v.pose_pos.x == le32(b, p + 64) && v.pose_pos.y == le32(b, p + 68) && v.pose_pos.z == le32(b, p + 72),
        v.pose_scale.x == le32(b, p + 76) && v.pose_scale.y == le32(b, p + 80) && v.pose_scale.z == le32(b, p + 84),
        v.bind_pose_pos.x == le32(b, p + 88) && v.bind_pose_pos.y == le32(b, p + 92) && v.bind_pose_pos.z == le32(b, p + 96),
        v.bind_pose_scale.x == le32(b, p + 100) && v.bind_pose_scale.y == le32(b, p + 104)
            && v.bind_pose_scale.z == le32(b, p + 108),
{
}

/// As `law_submotion_pose_in_stored_order`, for the second submotion
/// version.
pub proof fn law_submotion2_pose_in_stored_order(b: Seq<u8>, p: int, ctx: u32, v: XSMSkeletalSubMotion2)
    requires
        XSMSkeletalSubMotion2::at(b, p, ctx, v),
    ensures
        v.pose_rot.x == le32(b, p) && v.pose_rot.w == le32(b, p + 12),
        v.bind_pose_rot.x == le32(b, p + 16) && v.bind_pose_rot.w == le32(b, p + 28),
        v.pose_scale_rot.x == le32(b, p + 32) && v.pose_scale_rot.w == le32(b, p + 44),
        v.bind_pose_scale_rot.x == le32(b, p + 48) && v.bind_pose_scale_rot.w == le32(b, p + 60),
        v.pose_pos.x == le32(b, p + 64) && v.pose_pos.y == le32(b, p + 68) && v.pose_pos.z == le32(b, p + 72),
        v.pose_scale.x == le32(b, p + 76) && v.pose_scale.y == le32(b, p + 80) && v.pose_scale.z == le32(b, p + 84),
        v.bind_pose_pos.x == le32(b, p + 88) && v.bind_pose_pos.y == le32(b, p + 92) && v.bind_pose_pos.z == le32(b, p + 96),
        v.bind_pose_scale.x == le32(b, p + 100) && v.bind_pose_scale.y == le32(b, p + 104)
            && v.bind_pose_scale.z == le32(b, p + 108),
{
}

fn read_pose(b: &[u8], p: usize) -> (r: Option<
    (
        (
            (FileQuaternion, FileQuaternion, FileQuaternion, FileQuaternion),
            (FileVector3, FileVector3, FileVector3, FileVector3),
        ),
        usize,
    ),
>)
    ensures
        r is Some <==> fits(b@, p as int, 112),
        r is Some ==> {
            let (t, q) = r->0;
            q == p + 112 && pose_at(b@, p as int, t.0, t.1)
        },
{
    let (r0, q) = FileQuaternion::read(b, p, 0)?;
    let (r1, q) = FileQuaternion::read(b, q, 0)?;
    let (r2, q) = FileQuaternion::read(b, q, 0)?;
    let (r3, q) = FileQuaternion::read(b, q, 0)?;
    let (v0, q) = FileVector3::read(b, q, 0)?;
    let (v1, q) = FileVector3::read(b, q, 0)?;
    let (v2, q) = FileVector3::read(b, q, 0)?;
    let (v3, q) = FileVector3::read(b, q, 0)?;
    Some((((r0, r1, r2, r3), (v0, v1, v2, v3)), q))
}

/// As `pose_at`, with compressed rotations.
pub open spec fn pose16_at(
    b: Seq<u8>,
    p: int,
    r: (File16BitQuaternion, File16BitQuaternion, File16BitQuaternion, File16BitQuaternion),
    v: (FileVector3, FileVector3, FileVector3, FileVector3),
) -> bool {
    &&& File16BitQuaternion::at(b, p, 0, r.0)
    &&& File16BitQuaternion::at(b, p + 8, 0, r.1)
    &&& File16BitQuaternion::at(b, p + 16, 0, r.2)
    &&& File16BitQuaternion::at(b, p + 24, 0, r.3)
    &&& FileVector3::at(b, p + 32, 0, v.0)
    &&& FileVector3::at(b, p + 44, 0, v.1)
    &&& FileVector3::at(b, p + 56, 0, v.2)
    &&& FileVector3::at(b, p + 68, 0, v.3)
}

/// A pose with compressed rotations follows the stored order too: four
/// 8-byte rotations, then the pose position, pose scale, bind pose position
/// and bind pose scale from bytes 32, 44, 56 and 68, each component a
/// little-endian word.
pub proof fn law_pose16_in_stored_order(
    b: Seq<u8>,
    p: int,
    r: (File16BitQuaternion, File16BitQuaternion, File16BitQuaternion, File16BitQuaternion),
    v: (FileVector3, FileVector3, FileVector3, FileVector3),
)
    requires
        pose16_at(b, p, r, v),
    ensures
        v.0.x == le32(b, p + 32) && v.0.y == le32(b, p + 36) && v.0.z == le32(b, p + 40),
        v.1.x == le32(b, p + 44) && v.1.y == le32(b, p + 48) && v.1.z == le32(b, p + 52),
        v.2.x == le32(b, p + 56) && v.2.y == le32(b, p + 60) && v.2.z == le32(b, p + 64),
        v.3.x == le32(b, p + 68) && v.3.y == le32(b, p + 72) && v.3.z == le32(b, p + 76),
{
}

fn read_pose16(b: &[u8], p: usize) -> (r: Option<
    (
        (
            (File16BitQuaternion, File16BitQuaternion, File16BitQuaternion, File16BitQuaternion),
            (FileVector3, FileVector3, FileVector3, FileVector3),
        ),
        usize,
    ),
>)
    ensures
        r is Some <==> fits(b@, p as int, 80),
        r is Some ==> {
            let (t, q) = r->0;
            q == p + 80 && pose16_at(b@, p as int, t.0, t.1)
        },
{
    let (r0, q) = File16BitQuaternion::read(b, p, 0)?;
    let (r1, q) = File16BitQuaternion::read(b, q, 0)?;
    let (r2, q) = File16BitQuaternion::read(b, q, 0)?;
    let (r3, q) = File16BitQuaternion::read(b, q, 0)?;
    let (v0, q) = FileVector3::read(b, q, 0)?;
    let (v1, q) = FileVector3::read(b, q, 0)?;
    let (v2, q) = FileVector3::read(b, q, 0)?;
    let (v3, q) = FileVector3::read(b, q, 0)?;
    Some((((r0, r1, r2, r3), (v0, v1, v2, v3)), q))
}

/// A skeletal submotion, first version: the pose, the key counts, the
/// name, then the keys.
pub struct XSMSkeletalSubMotion {
    pub pose_rot: FileQuaternion,
    pub bind_pose_rot: FileQuaternion,
    pub pose_scale_rot: FileQuaternion,
    pub bind_pose_scale_rot: FileQuaternion,
    pub pose_pos: FileVector3,
    pub pose_scale: FileVector3,
    pub bind_pose_pos: FileVector3,
    pub bind_pose_scale: FileVector3,
    pub num_pos_keys: u32,
    pub num_rot_keys: u32,
    pub num_scale_keys: u32,
    pub num_scale_rot_keys: u32,
    pub name: String,
    pub pos_keys: Vec<XSMVector3Key>,
    pub rot_keys: Vec<XSMQuaternionKey>,
    pub scale_keys: Vec<XSMVector3Key>,
    pub scale_rot_keys: Vec<XSMQuaternionKey>,
}

impl Record for XSMSkeletalSubMotion {
    open spec fn end(b: Seq<u8>, p: int, ctx: u32) -> Option<int> {
        submotion_end::<XSMQuaternionKey>(b, p, 128, p + 112)
    }

    open spec fn at(b: Seq<u8>, p: int, ctx: u32, v: XSMSkeletalSubMotion) -> bool {
        &&& pose_at(
            b,
            p,
            (v.pose_rot, v.bind_pose_rot, v.pose_scale_rot, v.bind_pose_scale_rot),
            (v.pose_pos, v.pose_scale, v.bind_pose_pos, v.bind_pose_scale),
        )
        &&& v.num_pos_keys == le32(b, p + 112)
        &&& v.num_rot_keys == le32(b, p + 116)
        &&& v.num_scale_keys == le32(b, p + 120)
        &&& v.num_scale_rot_keys == le32(b, p + 124)
        &&& v.name@ == lstr_at(b, p + 128)
        &&& keys_at::<XSMQuaternionKey>(
            b,
            lstr_end(b, p + 128)->0,
            counts4(b, p + 112),
            Keys { pos: v.pos_keys, rot: v.rot_keys, scale: v.scale_keys, scale_rot: v.scale_rot_keys },
        )
    }

    fn read(b: &[u8], p: usize, ctx: u32) -> (r: Option<(XSMSkeletalSubMotion, usize)>) {
        let (((pose_rot, bind_pose_rot, pose_scale_rot, bind_pose_scale_rot), (
            pose_pos,
            pose_scale,
            bind_pose_pos,
            bind_pose_scale,
        )), q) = read_pose(b, p)?;
        let (num_pos_keys, q) = take_u32(b, q)?;
        let (num_rot_keys, q) = take_u32(b, q)?;
        let (num_scale_keys, q) = take_u32(b, q)?;
        let (num_scale_rot_keys, q) = take_u32(b, q)?;
        let (name, q) = take_lstr(b, q)?;
        let (keys, q) = read_keys::<XSMQuaternionKey>(
            b,
            q,
            (num_pos_keys, num_rot_keys, num_scale_keys, num_scale_rot_keys),
        )?;
        Some((XSMSkeletalSubMotion {
            pose_rot,
            bind_pose_rot,
            pose_scale_rot,
            bind_pose_scale_rot,
            pose_pos,
            pose_scale,
            bind_pose_pos,
            bind_pose_scale,
            num_pos_keys,
            num_rot_keys,
            num_scale_keys,
            num_scale_rot_keys,
            name,
            pos_keys: keys.pos,
            rot_keys: keys.rot,
            scale_keys: keys.scale,
            scale_rot_keys: keys.scale_rot,
        }, q))
    }
}

/// A skeletal submotion, second version: as the first, with the largest
/// error (bits of a 32-bit float) before the name.
pub struct XSMSkeletalSubMotion2 {
    pub pose_rot: FileQuaternion,
    pub bind_pose_rot: FileQuaternion,
    pub pose_scale_rot: FileQuaternion,
    pub bind_pose_scale_rot: FileQuaternion,
    pub pose_pos: FileVector3,
    pub pose_scale: FileVector3,
    pub bind_pose_pos: FileVector3,
    pub bind_pose_scale: FileVector3,
    pub num_pos_keys: u32,
    pub num_rot_keys: u32,
    pub num_scale_keys: u32,
    pub num_scale_rot_keys: u32,
    pub max_error: u32,
    pub name: String,
    pub pos_keys: Vec<XSMVector3Key>,
    pub rot_keys: Vec<XSMQuaternionKey>,
    pub scale_keys: Vec<XSMVector3Key>,
    pub scale_rot_keys: Vec<XSMQuaternionKey>,
}

impl Record for XSMSkeletalSubMotion2 {
    open spec fn end(b: Seq<u8>, p: int, ctx: u32) -> Option<int> {
        submotion_end::<XSMQuaternionKey>(b, p, 132, p + 112)
    }

    open spec fn at(b: Seq<u8>, p: int, ctx: u32, v: XSMSkeletalSubMotion2) -> bool {
        &&& pose_at(
            b,
            p,
            (v.pose_rot, v.bind_pose_rot, v.pose_scale_rot, v.bind_pose_scale_rot),
            (v.pose_pos, v.pose_scale, v.bind_pose_pos, v.bind_pose_scale),
        )
        &&& v.num_pos_keys == le32(b, p + 112)
        &&& v.num_rot_keys == le32(b, p + 116)
        &&& v.num_scale_keys == le32(b, p + 120)
        &&& v.num_scale_rot_keys == le32(b, p + 124)
        &&& v.max_error == le32(b, p + 128)
        &&& v.name@ == lstr_at(b, p + 132)
        &&& keys_at::<XSMQuaternionKey>(
            b,
            lstr_end(b, p + 132)->0,
            counts4(b, p + 112),
            Keys { pos: v.pos_keys, rot: v.rot_keys, scale: v.scale_keys, scale_rot: v.scale_rot_keys },
        )
    }

    fn read(b: &[u8], p: usize, ctx: u32) -> (r: Option<(XSMSkeletalSubMotion2, usize)>) {
        let (((pose_rot, bind_pose_rot, pose_scale_rot, bind_pose_scale_rot), (
            pose_pos,
            pose_scale,
            bind_pose_pos,
            bind_pose_scale,
        )), q) = read_pose(b, p)?;
        let (num_pos_keys, q) = take_u32(b, q)?;
        let (num_rot_keys, q) = take_u32(b, q)?;
        let (num_scale_keys, q) = take_u32(b, q)?;
        let (num_scale_rot_keys, q) = take_u32(b, q)?;
        let (max_error, q) = take_u32(b, q)?;
        let (name, q) = take_lstr(b, q)?;
        let (keys, q) = read_keys::<XSMQuaternionKey>(
            b,
            q,
            (num_pos_keys, num_rot_keys, num_scale_keys, num_scale_rot_keys),
        )?;
        Some((XSMSkeletalSubMotion2 {
            pose_rot,
            bind_pose_rot,
            pose_scale_rot,
            bind_pose_scale_rot,
            pose_pos,
            pose_scale,
            bind_pose_pos,
            bind_pose_scale,
            num_pos_keys,
            num_rot_keys,
            num_scale_keys,
            num_scale_rot_keys,
            max_error,
            name,
            pos_keys: keys.pos,
            rot_keys: keys.rot,
            scale_keys: keys.scale,
            scale_rot_keys: keys.scale_rot,
        }, q))
    }
}

/// A skeletal submotion, third version: as the second, with compressed
/// rotations in the pose and in the keys.
pub struct XSMSkeletalSubMotion3 {
    pub pose_rot: File16BitQuaternion,
    pub bind_pose_rot: File16BitQuaternion,
    pub pose_scale_rot: File16BitQuaternion,
    pub bind_pose_scale_rot: File16BitQuaternion,
    pub pose_pos: FileVector3,
    pub pose_scale: FileVector3,
    pub bind_pose_pos: FileVector3,
    pub bind_pose_scale: FileVector3,
    pub num_pos_keys: u32,
    pub num_rot_keys: u32,
    pub num_scale_keys: u32,
    pub num_scale_rot_keys: u32,
    pub max_error: u32,
    pub name: String,
    pub pos_keys: Vec<XSMVector3Key>,
    pub rot_keys: Vec<XSM16BitQuaternionKey>,
    pub scale_keys: Vec<XSMVector3Key>,
    pub scale_rot_keys: Vec<XSM16BitQuaternionKey>,
}

impl Record for XSMSkeletalSubMotion3 {
    open spec fn end(b: Seq<u8>, p: int, ctx: u32) -> Option<int> {
        submotion_end::<XSM16BitQuaternionKey>(b, p, 100, p + 80)
    }

    open spec fn at(b: Seq<u8>, p: int, ctx: u32, v: XSMSkeletalSubMotion3) -> bool {
        &&& pose16_at(
            b,
            p,
            (v.pose_rot, v.bind_pose_rot, v.pose_scale_rot, v.bind_pose_scale_rot),
            (v.pose_pos, v.pose_scale, v.bind_pose_pos, v.bind_pose_scale),
        )
        &&& v.num_pos_keys == le32(b, p + 80)
        &&& v.num_rot_keys == le32(b, p + 84)
        &&& v.num_scale_keys == le32(b, p + 88)
        &&& v.num_scale_rot_keys == le32(b, p + 92)
        &&& v.max_error == le32(b, p + 96)
        &&& v.name@ == lstr_at(b, p + 100)
        &&& keys_at::<XSM16BitQuaternionKey>(
            b,
            lstr_end(b, p + 100)->0,
            counts4(b, p + 80),
            Keys { pos: v.pos_keys, rot: v.rot_keys, scale: v.scale_keys, scale_rot: v.scale_rot_keys },
        )
    }

    fn read(b: &[u8], p: usize, ctx: u32) -> (r: Option<(XSMSkeletalSubMotion3, usize)>) {
        let (((pose_rot, bind_pose_rot, pose_scale_rot, bind_pose_scale_rot), (
            pose_pos,
            pose_scale,
            bind_pose_pos,
            bind_pose_scale,
        )), q) = read_pose16(b, p)?;
        let (num_pos_keys, q) = take_u32(b, q)?;
        let (num_rot_keys, q) = take_u32(b, q)?;
        let (num_scale_keys, q) = take_u32(b, q)?;
        let (num_scale_rot_keys, q) = take_u32(b, q)?;
        let (max_error, q) = take_u32(b, q)?;
        let (name, q) = take_lstr(b, q)?;
        let (keys, q) = read_keys::<XSM16BitQuaternionKey>(
            b,
            q,
            (num_pos_keys, num_rot_keys, num_scale_keys, num_scale_rot_keys),
        )?;
        Some((XSMSkeletalSubMotion3 {
            pose_rot,
            bind_pose_rot,
            pose_scale_rot,
            bind_pose_scale_rot,
            pose_pos,
            pose_scale,
            bind_pose_pos,
            bind_pose_scale,
            num_pos_keys,
            num_rot_keys,
            num_scale_keys,
            num_scale_rot_keys,
            max_error,
            name,
            pos_keys: keys.pos,
            rot_keys: keys.rot,
            scale_keys: keys.scale,
            scale_rot_keys: keys.scale_rot,
        }, q))
    }
}

/// The submotions, first version: their number, then the submotions
/// (second submotion version).
pub struct XSMSubMotions {
    pub num_sub_motions: u32,
    pub sub_motions: Vec<XSMSkeletalSubMotion2>,
}

impl Record for XSMSubMotions {
    open spec fn end(b: Seq<u8>, p: int, ctx: u32) -> Option<int> {
        if fits(b, p, 4) {
            list_end::<XSMSkeletalSubMotion2>(b, p + 4, 0, le32(b, p) as nat)
        } else {
            None
        }
    }

    open spec fn at(b: Seq<u8>, p: int, ctx: u32, v: XSMSubMotions) -> bool {
        &&& v.num_sub_motions == le32(b, p)
        &&& list_at::<XSMSkeletalSubMotion2>(b, p + 4, 0, le32(b, p) as nat, v.sub_motions@)
    }

    fn read(b: &[u8], p: usize, ctx: u32) -> (r: Option<(XSMSubMotions, usize)>) {
        let (num_sub_motions, q) = take_u32(b, p)?;
        let (sub_motions, q) = read_list::<XSMSkeletalSubMotion2>(b, q, 0, num_sub_motions)?;
        Some((XSMSubMotions { num_sub_motions, sub_motions }, q))
    }
}

/// The submotions, second version: their number, then the submotions
/// (third submotion version).
pub struct XSMSubMotions2 {
    pub num_sub_motions: u32,
    pub sub_motions: Vec<XSMSkeletalSubMotion3>,
}

impl Record for XSMSubMotions2 {
    open spec fn end(b: Seq<u8>, p: int, ctx: u32) -> Option<int> {
        if fits(b, p, 4) {
            list_end::<XSMSkeletalSubMotion3>(b, p + 4, 0, le32(b, p) as nat)
        } else {
            None
        }
    }

    open spec fn at(b: Seq<u8>, p: int, ctx: u32, v: XSMSubMotions2) -> bool {
        &&& v.num_sub_motions == le32(b, p)
        &&& list_at::<XSMSkeletalSubMotion3>(b, p + 4, 0, le32(b, p) as nat, v.sub_motions@)
    }

    fn read(b: &[u8], p: usize, ctx: u32) -> (r: Option<(XSMSubMotions2, usize)>) {
        let (num_sub_motions, q) = take_u32(b, p)?;
        let (sub_motions, q) = read_list::<XSMSkeletalSubMotion3>(b, q, 0, num_sub_motions)?;
        Some((XSMSubMotions2 { num_sub_motions, sub_motions }, q))
    }
}

// ------------------------------------------------------------------ wavelets

/// Where a wavelet-compressed submotion's data lies in the decompressed
/// tracks.
pub struct XSMWaveletMapping {
    pub pos_index: u16,
    pub rot_index: u16,
    pub scale_rot_index: u16,
    pub scale_index: u16,
}

impl Record for XSMWaveletMapping {
    open spec fn end(b: Seq<u8>, p: int, ctx: u32) -> Option<int> {
        if fits(b, p, 8) { Some(p + 8) } else { None }
    }

    open spec fn at(b: Seq<u8>, p: int, ctx: u32, v: XSMWaveletMapping) -> bool {
        &&& v.pos_index == le16(b, p)
        &&& v.rot_index == le16(b, p + 2)
        &&& v.scale_rot_index == le16(b, p + 4)
        &&& v.scale_index == le16(b, p + 6)
    }

    fn read(b: &[u8], p: usize, ctx: u32) -> (r: Option<(XSMWaveletMapping, usize)>) {
        let (pos_index, q) = take_u16(b, p)?;
        let (rot_index, q) = take_u16(b, q)?;
        let (scale_rot_index, q) = take_u16(b, q)?;
        let (scale_index, q) = take_u16(b, q)?;
        Some((XSMWaveletMapping { pos_index, rot_index, scale_rot_index, scale_index }, q))
    }
}

/// A wavelet-compressed submotion: its pose (compressed rotations), the
/// largest error (bits of a 32-bit float) and its name.
pub struct XSMWaveletSkeletalSubMotion {
    pub pose_rot: File16BitQuaternion,
    pub bind_pose_rot: File16BitQuaternion,
    pub pose_scale_rot: File16BitQuaternion,
    pub bind_pose_scale_rot: File16BitQuaternion,
    pub pose_pos: FileVector3,
    pub pose_scale: FileVector3,
    pub bind_pose_pos: FileVector3,
    pub bind_pose_scale: FileVector3,
    pub max_error: u32,
    pub name: String,
}

impl Record for XSMWaveletSkeletalSubMotion {
    open spec fn end(b: Seq<u8>, p: int, ctx: u32) -> Option<int> {
        if fits(b, p, 84) { lstr_end(b, p + 84) } else { None }
    }

    open spec fn at(b: Seq<u8>, p: int, ctx: u32, v: XSMWaveletSkeletalSubMotion) -> bool {
        &&& pose16_at(
            b,
            p,
            (v.pose_rot, v.bind_pose_rot, v.pose_scale_rot, v.bind_pose_scale_rot),
            (v.pose_pos, v.pose_scale, v.bind_pose_pos, v.bind_pose_scale),
        )
        &&& v.max_error == le32(b, p + 80)
        &&& v.name@ == lstr_at(b, p + 84)
    }

    fn read(b: &[u8], p: usize, ctx: u32) -> (r: Option<(XSMWaveletSkeletalSubMotion, usize)>) {
        let (((pose_rot, bind_pose_rot, pose_scale_rot, bind_pose_scale_rot), (
            pose_pos,
            pose_scale,
            bind_pose_pos,
            bind_pose_scale,
        )), q) = read_pose16(b, p)?;
        let (max_error, q) = take_u32(b, q)?;
        let (name, q) = take_lstr(b, q)?;
        Some((XSMWaveletSkeletalSubMotion {
            pose_rot,
            bind_pose_rot,
            pose_scale_rot,
            bind_pose_scale_rot,
            pose_pos,
            pose_scale,
            bind_pose_pos,
            bind_pose_scale,
            max_error,
            name,
        }, q))
    }
}

/// A chunk of wavelet-compressed data: four scales (bits of 32-bit floats),
/// byte and bit counts, then the compressed rotations, positions and
/// scales.
pub struct XSMWaveletChunk {
    pub rot_quant_scale: u32,
    pub pos_quant_scale: u32,
    pub scale_quant_scale: u32,
    pub start_time: u32,
    pub compressed_rot_num_bytes: u32,
    pub compressed_pos_num_bytes: u32,
    pub compressed_scale_num_bytes: u32,
    pub compressed_pos_num_bits: u32,
    pub compressed_rot_num_bits: u32,
    pub compressed_scale_num_bits: u32,
    pub compressed_rot_data: Vec<u8>,
    pub compressed_pos_data: Vec<u8>,
    pub compressed_scale_data: Vec<u8>,
}

impl Record for XSMWaveletChunk {
    open spec fn end(b: Seq<u8>, p: int, ctx: u32) -> Option<int> {
        let n1 = le32(b, p + 16);
        let n2 = le32(b, p + 20);
        let n3 = le32(b, p + 24);
        if fits(b, p, 40) && fits(b, p + 40, n1) && fits(b, p + 40 + n1, n2) && fits(
            b,
            p + 40 + n1 + n2,
            n3,
        ) {
            Some(p + 40 + n1 + n2 + n3)
        } else {
            None
        }
    }

    open spec fn at(b: Seq<u8>, p: int, ctx: u32, v: XSMWaveletChunk) -> bool {
        let n1 = le32(b, p + 16);
        let n2 = le32(b, p + 20);
        let n3 = le32(b, p + 24);
        &&& v.rot_quant_scale == le32(b, p)
        &&& v.pos_quant_scale == le32(b, p + 4)
        &&& v.scale_quant_scale == le32(b, p + 8)
        &&& v.start_time == le32(b, p + 12)
        &&& v.compressed_rot_num_bytes == n1
        &&& v.compressed_pos_num_bytes == n2
        &&& v.compressed_scale_num_bytes == n3
        &&& v.compressed_pos_num_bits == le32(b, p + 28)
        &&& v.compressed_rot_num_bits == le32(b, p + 32)
        &&& v.compressed_scale_num_bits == le32(b, p + 36)
        &&& v.compressed_rot_data@ == b.subrange(p + 40, p + 40 + n1)
        &&& v.compressed_pos_data@ == b.subrange(p + 40 + n1, p + 40 + n1 + n2)
        &&& v.compressed_scale_data@ == b.subrange(p + 40 + n1 + n2, p + 40 + n1 + n2 + n3)
    }

    fn read(b: &[u8], p: usize, ctx: u32) -> (r: Option<(XSMWaveletChunk, usize)>) {
        let (rot_quant_scale, q) = take_u32(b, p)?;
        let (pos_quant_scale, q) = take_u32(b, q)?;
        let (scale_quant_scale, q) = take_u32(b, q)?;
        let (start_time, q) = take_u32(b, q)?;
        let (compressed_rot_num_bytes, q) = take_u32(b, q)?;
        let (compressed_pos_num_bytes, q) = take_u32(b, q)?;
        let (compressed_scale_num_bytes, q) = take_u32(b, q)?;
        let (compressed_pos_num_bits, q) = take_u32(b, q)?;
        let (compressed_rot_num_bits, q) = take_u32(b, q)?;
        let (compressed_scale_num_bits, q) = take_u32(b, q)?;
        let (compressed_rot_data, q) = take_bytes(b, q, compressed_rot_num_bytes as usize)?;
        let (compressed_pos_data, q) = take_bytes(b, q, compressed_pos_num_bytes as usize)?;
        let (compressed_scale_data, q) = take_bytes(b, q, compressed_scale_num_bytes as usize)?;
        Some((XSMWaveletChunk {
            rot_quant_scale,
            pos_quant_scale,
            scale_quant_scale,
            start_time,
            compressed_rot_num_bytes,
            compressed_pos_num_bytes,
            compressed_scale_num_bytes,
            compressed_pos_num_bits,
            compressed_rot_num_bits,
            compressed_scale_num_bits,
            compressed_rot_data,
            compressed_pos_data,
            compressed_scale_data,
        }, q))
    }
}

/// Where the runs of a wavelet info from `p` end: `n` mappings, `n`
/// submotions, then `c` chunks.
pub open spec fn wavelet_runs_end(b: Seq<u8>, p: int, n: nat, c: nat) -> Option<int> {
    match list_end::<XSMWaveletMapping>(b, p, 0, n) {
        None => None,
        Some(q1) => match list_end::<XSMWaveletSkeletalSubMotion>(b, q1, 0, n) {
            None => None,
            Some(q2) => list_end::<XSMWaveletChunk>(b, q2, 0, c),
        },
    }
}

/// The header of wavelet-compressed submotions: sizes and counts, quantizing
/// factors, times (bits of 32-bit floats), the wavelet and the coder, then
/// the mappings and submotions (one of each per submotion) and the chunks.
pub struct XSMWaveletInfo {
    pub num_chunks: u32,
    pub samples_per_chunk: u32,
    pub decompressed_rot_num_bytes: u32,
    pub decompressed_pos_num_bytes: u32,
    pub decompressed_scale_num_bytes: u32,
    pub num_rot_tracks: u32,
    pub num_scale_rot_tracks: u32,
    pub num_scale_tracks: u32,
    pub num_pos_tracks: u32,
    pub chunk_overhead: u32,
    pub compressed_size: u32,
    pub optimized_size: u32,
    pub uncompressed_size: u32,
    pub scale_rot_offset: u32,
    pub num_sub_motions: u32,
    pub pos_quant_factor: u32,
    pub rot_quant_factor: u32,
    pub scale_quant_factor: u32,
    pub sample_spacing: u32,
    pub seconds_per_chunk: u32,
    pub max_time: u32,
    pub wavelet_id: u8,
    pub compressor_id: u8,
    pub padding: [u8; 2],
    pub mappings: Vec<XSMWaveletMapping>,
    pub sub_motions: Vec<XSMWaveletSkeletalSubMotion>,
    pub chunks: Vec<XSMWaveletChunk>,
}

impl Record for XSMWaveletInfo {
    open spec fn end(b: Seq<u8>, p: int, ctx: u32) -> Option<int> {
        if fits(b, p, 88) {
            wavelet_runs_end(b, p + 88, le32(b, p + 56) as nat, le32(b, p) as nat)
        } else {
            None
        }
    }

    open spec fn at(b: Seq<u8>, p: int, ctx: u32, v: XSMWaveletInfo) -> bool {
        let n = le32(b, p + 56) as nat;
        let q1 = list_end::<XSMWaveletMapping>(b, p + 88, 0, n)->0;
        let q2 = list_end::<XSMWaveletSkeletalSubMotion>(b, q1, 0, n)->0;
        &&& v.num_chunks == le32(b, p)
        &&& v.samples_per_chunk == le32(b, p + 4)
        &&& v.decompressed_rot_num_bytes == le32(b, p + 8)
        &&& v.decompressed_pos_num_bytes == le32(b, p + 12)
        &&& v.decompressed_scale_num_bytes == le32(b, p + 16)
        &&& v.num_rot_tracks == le32(b, p + 20)
        &&& v.num_scale_rot_tracks == le32(b, p + 24)
        &&& v.num_scale_tracks == le32(b, p + 28)
        &&& v.num_pos_tracks == le32(b, p + 32)
        &&& v.chunk_overhead == le32(b, p + 36)
        &&& v.compressed_size == le32(b, p + 40)
        &&& v.optimized_size == le32(b, p + 44)
        &&& v.uncompressed_size == le32(b, p + 48)
        &&& v.scale_rot_offset == le32(b, p + 52)
        &&& v.num_sub_motions == n
        &&& v.pos_quant_factor == le32(b, p + 60)
        &&& v.rot_quant_factor == le32(b, p + 64)
        &&& v.scale_quant_factor == le32(b, p + 68)
        &&& v.sample_spacing == le32(b, p + 72)
        &&& v.seconds_per_chunk == le32(b, p + 76)
        &&& v.max_time == le32(b, p + 80)
        &&& v.wavelet_id == b[p + 84]
        &&& v.compressor_id == b[p + 85]
        &&& v.padding@ == b.subrange(p + 86, p + 88)
        &&& list_at::<XSMWaveletMapping>(b, p + 88, 0, n, v.mappings@)
        &&& list_at::<XSMWaveletSkeletalSubMotion>(b, q1, 0, n, v.sub_motions@)
        &&& list_at::<XSMWaveletChunk>(b, q2, 0, le32(b, p) as nat, v.chunks@)
    }

    fn read(b: &[u8], p: usize, ctx: u32) -> (r: Option<(XSMWaveletInfo, usize)>) {
        let (num_chunks, q) = take_u32(b, p)?;
        let (samples_per_chunk, q) = take_u32(b, q)?;
        let (decompressed_rot_num_bytes, q) = take_u32(b, q)?;
        let (decompressed_pos_num_bytes, q) = take_u32(b, q)?;
        let (decompressed_scale_num_bytes, q) = take_u32(b, q)?;
        let (num_rot_tracks, q) = take_u32(b, q)?;
        let (num_scale_rot_tracks, q) = take_u32(b, q)?;
        let (num_scale_tracks, q) = take_u32(b, q)?;
        let (num_pos_tracks, q) = take_u32(b, q)?;
        let (chunk_overhead, q) = take_u32(b, q)?;
        let (compressed_size, q) = take_u32(b, q)?;
        let (optimized_size, q) = take_u32(b, q)?;
        let (uncompressed_size, q) = take_u32(b, q)?;
        let (scale_rot_offset, q) = take_u32(b, q)?;
        let (num_sub_motions, q) = take_u32(b, q)?;
        let (pos_quant_factor, q) = take_u32(b, q)?;
        let (rot_quant_factor, q) = take_u32(b, q)?;
        let (scale_quant_factor, q) = take_u32(b, q)?;
        let (sample_spacing, q) = take_u32(b, q)?;
        let (seconds_per_chunk, q) = take_u32(b, q)?;
        let (max_time, q) = take_u32(b, q)?;
        let (wavelet_id, q) = take_u8(b, q)?;
        let (compressor_id, q) = take_u8(b, q)?;
        let (padding, q) = take_arr2(b, q)?;
        let (mappings, q) = read_list::<XSMWaveletMapping>(b, q, 0, num_sub_motions)?;
        let (sub_motions, q) = read_list::<XSMWaveletSkeletalSubMotion>(b, q, 0, num_sub_motions)?;
        let (chunks, q) = read_list::<XSMWaveletChunk>(b, q, 0, num_chunks)?;
        Some((XSMWaveletInfo {
            num_chunks,
            samples_per_chunk,
            decompressed_rot_num_bytes,
            decompressed_pos_num_bytes,
            decompressed_scale_num_bytes,
            num_rot_tracks,
            num_scale_rot_tracks,
            num_scale_tracks,
            num_pos_tracks,
            chunk_overhead,
            compressed_size,
            optimized_size,
            uncompressed_size,
            scale_rot_offset,
            num_sub_motions,
            pos_quant_factor,
            rot_quant_factor,
            scale_quant_factor,
            sample_spacing,
            seconds_per_chunk,
            max_time,
            wavelet_id,
            compressor_id,
            padding,
            mappings,
            sub_motions,
            chunks,
        }, q))
    }
}

// ------------------------------------------------------------------ chunks

/// The record of one chunk, by kind and version.
pub enum XSMChunkData {
    Info(XSMInfo),
    Info2(XSMInfo2),
    Info3(XSMInfo3),
    SubMotions(XSMSubMotions),
    SubMotions2(XSMSubMotions2),
    WaveletInfo(XSMWaveletInfo),
}

/// The chunk kinds and versions that are read: info 1 to 3, submotions 1
/// and 2, and wavelet info in any version.
pub open spec fn xsm_chunk_supported(id: u32, ver: u32) -> bool {
    ||| id == 201 && 1 <= ver <= 3
    ||| id == 202 && 1 <= ver <= 2
    ||| id == 203
}

/// Where the record of a supported chunk of kind `id` and version `ver`
/// read at `p` ends, if the data holds it.
pub open spec fn xsm_chunk_end(id: u32, ver: u32, b: Seq<u8>, p: int) -> Option<int> {
    if id == 201 {
        if ver == 1 {
            XSMInfo::end(b, p, 0)
        } else if ver == 2 {
            XSMInfo2::end(b, p, 0)
        } else if ver == 3 {
            XSMInfo3::end(b, p, 0)
        } else {
            None
        }
    } else if id == 202 {
        if ver == 1 {
            XSMSubMotions::end(b, p, 0)
        } else if ver == 2 {
            XSMSubMotions2::end(b, p, 0)
        } else {
            None
        }
    } else if id == 203 {
        XSMWaveletInfo::end(b, p, 0)
    } else {
        None
    }
}

/// `v` is the record of kind `id` and version `ver` read at `p`.
pub open spec fn xsm_chunk_data_at(id: u32, ver: u32, b: Seq<u8>, p: int, v: XSMChunkData) -> bool {
    match v {
        XSMChunkData::Info(x) => id == 201 && ver == 1 && XSMInfo::at(b, p, 0, x),
        XSMChunkData::Info2(x) => id == 201 && ver == 2 && XSMInfo2::at(b, p, 0, x),
        XSMChunkData::Info3(x) => id == 201 && ver == 3 && XSMInfo3::at(b, p, 0, x),
        XSMChunkData::SubMotions(x) => id == 202 && ver == 1 && XSMSubMotions::at(b, p, 0, x),
        XSMChunkData::SubMotions2(x) => id == 202 && ver == 2 && XSMSubMotions2::at(b, p, 0, x),
        XSMChunkData::WaveletInfo(x) => id == 203 && XSMWaveletInfo::at(b, p, 0, x),
    }
}

/// The record of a chunk of kind `id` and version `ver`, read at `p` with
/// the position after it; nothing for a kind or version that is not read or
/// data that ends before the record does.
fn parse_chunk_data(id: u32, ver: u32, b: &[u8], p: usize) -> (r: Option<(XSMChunkData, usize)>)
    ensures
        r is Some <==> xsm_chunk_supported(id, ver) && xsm_chunk_end(id, ver, b@, p as int) is Some,
        r is Some ==> (r->0).1 == xsm_chunk_end(id, ver, b@, p as int)->0 && xsm_chunk_data_at(
            id,
            ver,
            b@,
            p as int,
            (r->0).0,
        ),
{
    if id == XSMChunk::Info.value() {
        if ver == 1 {
            let (x, q) = XSMInfo::read(b, p, 0)?;
            Some((XSMChunkData::Info(x), q))
        } else if ver == 2 {
            let (x, q) = XSMInfo2::read(b, p, 0)?;
            Some((XSMChunkData::Info2(x), q))
        } else if ver == 3 {
            let (x, q) = XSMInfo3::read(b, p, 0)?;
            Some((XSMChunkData::Info3(x), q))
        } else {
            None
        }
    } else if id == XSMChunk::Submotions.value() {
        if ver == 1 {
            let (x, q) = XSMSubMotions::read(b, p, 0)?;
            Some((XSMChunkData::SubMotions(x), q))
        } else if ver == 2 {
            let (x, q) = XSMSubMotions2::read(b, p, 0)?;
            Some((XSMChunkData::SubMotions2(x), q))
        } else {
            None
        }
    } else if id == XSMChunk::WaveletInfo.value() {
        let (x, q) = XSMWaveletInfo::read(b, p, 0)?;
        Some((XSMChunkData::WaveletInfo(x), q))
    } else {
        None
    }
}

/// Where the record framed at `p` ends, if it can be read.
pub open spec fn xsm_record_end(b: Seq<u8>, p: int) -> Option<int> {
    if xsm_chunk_supported(frame_id(b, p), frame_version(b, p)) {
        xsm_chunk_end(frame_id(b, p), frame_version(b, p), b, p + 12)
    } else {
        None
    }
}

/// Where reading goes on after the frame at `p`: the end of the size the
/// frame gives, or the end of its record where that lies further.
pub open spec fn xsm_next(b: Seq<u8>, p: int) -> int {
    let sized = p + 12 + frame_size(b, p);
    match xsm_record_end(b, p) {
        Some(e) => if e < sized { sized } else { e },
        None => sized,
    }
}

/// The positions of the frames whose records are read, from `p` on: frames
/// follow each other while twelve bytes are left for one; a frame whose
/// record cannot be read is skipped.
pub open spec fn xsm_chunks_from(b: Seq<u8>, p: int) -> Seq<int>
    decreases b.len() - p,
{
    if p < 0 || p > b.len() || b.len() - p < 12 {
        Seq::empty()
    } else {
        let rest = if xsm_next(b, p) <= b.len() {
            xsm_chunks_from(b, xsm_next(b, p))
        } else {
            Seq::empty()
        };
        if xsm_record_end(b, p) is Some {
            seq![p] + rest
        } else {
            rest
        }
    }
}

/// A chunk: its frame and its record.
pub struct XSMChunkEntry {
    pub chunk: FileChunk,
    pub chunk_data: XSMChunkData,
}

/// A whole file: its header and the chunks whose records were read, in file
/// order.
pub struct XSMRoot {
    pub header: XSMHeader,
    pub chunks: Vec<XSMChunkEntry>,
}

/// Why a file cannot be read.
#[derive(Debug, Clone, Copy, PartialEq, Eq, Structural)]
pub enum XsmError {
    /// The data is shorter than the header.
    Header,
}

/// `e` is the chunk framed at `p`.
pub open spec fn xsm_entry_at(b: Seq<u8>, p: int, e: XSMChunkEntry) -> bool {
    &&& FileChunk::at(b, p, 0, e.chunk)
    &&& xsm_chunk_data_at(frame_id(b, p), frame_version(b, p), b, p + 12, e.chunk_data)
}

/// `entries` are the chunks framed at the positions `starts`.
pub open spec fn xsm_entries_at(b: Seq<u8>, starts: Seq<int>, entries: Seq<XSMChunkEntry>) -> bool {
    &&& entries.len() == starts.len()
    &&& forall|i: int| 0 <= i < starts.len() ==> xsm_entry_at(b, starts[i], #[trigger] entries[i])
}

/// Reads the chunks from `p` to the end, skipping those whose records
/// cannot be read.
#[verifier::rlimit(40)]
fn read_chunks(b: &[u8], p: usize) -> (r: Vec<XSMChunkEntry>)
    ensures
        xsm_entries_at(b@, xsm_chunks_from(b@, p as int), r@),
{
    let mut chunks: Vec<XSMChunkEntry> = Vec::new();
    let mut pos: usize = p;
    let ghost mut starts: Seq<int> = Seq::empty();
    loop
        invariant
            xsm_chunks_from(b@, p as int) == starts + xsm_chunks_from(b@, pos as int),
            xsm_entries_at(b@, starts, chunks@),
        decreases b@.len() - pos,
    {
        if pos > b.len() || b.len() - pos < 12 {
            assert(starts + Seq::<int>::empty() =~= starts);
            return chunks;
        }
        let (chunk, start) = FileChunk::read(b, pos, 0).unwrap();
        let parsed = parse_chunk_data(chunk.chunk_id, chunk.version, b, start);
        let size = chunk.size_in_bytes as usize;
        let ghost old_starts = starts;
        let ghost rest = if xsm_next(b@, pos as int) <= b@.len() {
            xsm_chunks_from(b@, xsm_next(b@, pos as int))
        } else {
            Seq::<int>::empty()
        };
        let next: usize = match parsed {
            Some((chunk_data, e)) => {
                proof {
                    starts = starts.push(pos as int);
                    assert(old_starts + (seq![pos as int] + rest) =~= starts + rest);
                }
                chunks.push(XSMChunkEntry { chunk, chunk_data });
                assert(xsm_entries_at(b@, starts, chunks@)) by {
                    assert forall|i: int| 0 <= i < starts.len() implies xsm_entry_at(
                        b@,
                        starts[i],
                        #[trigger] chunks@[i],
                    ) by {
                        if i < old_starts.len() {
                            assert(starts[i] == old_starts[i]);
                        }
                    }
                }
                if size > b.len() - start {
                    assert(starts + Seq::<int>::empty() =~= starts);
                    return chunks;
                }
                if e < start + size {
                    start + size
                } else {
                    e
                }
            },
            None => {
                if size > b.len() - start {
                    return chunks;
                }
                start + size
            },
        };
        assert(next == xsm_next(b@, pos as int));
        pos = next;
    }
}

/// `r` is the file that `b` holds: the header at the start and the chunks
/// read from after it.
pub open spec fn xsm_root_at(b: Seq<u8>, r: XSMRoot) -> bool {
    &&& XSMHeader::at(b, 0, 0, r.header)
    &&& xsm_entries_at(b, xsm_chunks_from(b, 8), r.chunks@)
}

impl XSMRoot {
    /// Reads a file: the header, then the chunks while twelve bytes are left
    /// for a frame. A chunk whose kind or version is not read, or whose
    /// record the data does not hold, is skipped by the size its frame
    /// gives. Fails only where the data is shorter than the header.
    pub fn from_bytes(b: &[u8]) -> (r: Result<XSMRoot, XsmError>)
        ensures
            b@.len() < 8 ==> r == Err::<XSMRoot, XsmError>(XsmError::Header),
            b@.len() >= 8 ==> (r matches Ok(root) && xsm_root_at(b@, root)),
    {
        let (header, p) = match XSMHeader::read(b, 0, 0) {
            Some(h) => h,
            None => {
                return Err(XsmError::Header);
            },
        };
        let chunks = read_chunks(b, p);
        Ok(XSMRoot { header, chunks })
    }
}

} // verus!
