//! The flat XSM motion reader: the header, then every chunk, the metadata
//! kept from the last metadata chunk and the skeletal sub-motions of every
//! bone animation chunk gathered in order. Floating-point fields are kept
//! as the bits of their 32-bit floats.

use vstd::prelude::*;
use crate::bytes::{le16, le32, signed16, signed32};
use crate::decode::{fits, take_u8, take_u32, take_i16, take_i32, Record, list_end, list_at, read_list};
use crate::text::{utf8_strict, lowercase, ends_with, lower_ends_with};
use crate::xac_file::{xac_read_string, xstr_end, xstr_at, nth_text, w32, concat_at, lemma_concat_push};

verus! {

/// A count stored as a signed 32-bit number: none where it is negative.
pub open spec fn count_at(b: Seq<u8>, p: int) -> nat {
    if le32(b, p) < 0x8000_0000 {
        le32(b, p) as nat
    } else {
        0
    }
}

/// The count that a signed 32-bit number gives.
fn count_of(n: i32) -> (r: u32)
    ensures
        r == (if n >= 0 { n as int } else { 0 }),
{
    if n >= 0 {
        n as u32
    } else {
        0
    }
}

#[derive(Copy, Clone, PartialEq, Eq, Structural, Debug)]
pub struct XsmVec3d {
    pub x: u32,
    pub y: u32,
    pub z: u32,
}

#[derive(Copy, Clone, PartialEq, Eq, Structural, Debug)]
pub struct XsmQuaternion16 {
    pub x: i16,
    pub y: i16,
    pub z: i16,
    pub w: i16,
}

pub open spec fn xvec3_at(b: Seq<u8>, p: int) -> XsmVec3d {
    XsmVec3d { x: w32(b, p), y: w32(b, p + 4), z: w32(b, p + 8) }
}

pub open spec fn quat16_at(b: Seq<u8>, p: int) -> XsmQuaternion16 {
    XsmQuaternion16 {
        x: signed16(le16(b, p)) as i16,
        y: signed16(le16(b, p + 2)) as i16,
        z: signed16(le16(b, p + 4)) as i16,
        w: signed16(le16(b, p + 6)) as i16,
    }
}

pub fn xsm_read_vec3d(b: &[u8], p: usize) -> (r: Option<(XsmVec3d, usize)>)
    ensures
        r is Some <==> fits(b@, p as int, 12),
        r is Some ==> (r->0).0 == xvec3_at(b@, p as int) && (r->0).1 == p + 12,
{
    let (x, q) = take_u32(b, p)?;
    let (y, q) = take_u32(b, q)?;
    let (z, q) = take_u32(b, q)?;
    Some((XsmVec3d { x, y, z }, q))
}

pub fn xsm_read_quaternion16(b: &[u8], p: usize) -> (r: Option<(XsmQuaternion16, usize)>)
    ensures
        r is Some <==> fits(b@, p as int, 8),
        r is Some ==> (r->0).0 == quat16_at(b@, p as int) && (r->0).1 == p + 8,
{
    let (x, q) = take_i16(b, p)?;
    let (y, q) = take_i16(b, q)?;
    let (z, q) = take_i16(b, q)?;
    let (w, q) = take_i16(b, q)?;
    Some((XsmQuaternion16 { x, y, z, w }, q))
}

/// A position key: where, and when (its bits).
#[derive(Copy, Clone, PartialEq, Eq, Structural, Debug)]
pub struct XsmPosKey {
    pub pos: XsmVec3d,
    pub time: u32,
}

/// A rotation key.
#[derive(Copy, Clone, PartialEq, Eq, Structural, Debug)]
pub struct XsmRotKey {
    pub rot: XsmQuaternion16,
    pub time: u32,
}

/// A scale key.
#[derive(Copy, Clone, PartialEq, Eq, Structural, Debug)]
pub struct XsmScaleKey {
    pub scale: XsmVec3d,
    pub time: u32,
}

/// A scale rotation key.
#[derive(Copy, Clone, PartialEq, Eq, Structural, Debug)]
pub struct XsmScaleRotKey {
    pub rot: XsmQuaternion16,
    pub time: u32,
}

impl Record for XsmPosKey {
    open spec fn end(b: Seq<u8>, p: int, ctx: u32) -> Option<int> {
        if fits(b, p, 16) { Some(p + 16) } else { None }
    }

    open spec fn at(b: Seq<u8>, p: int, ctx: u32, v: XsmPosKey) -> bool {
        v.pos == xvec3_at(b, p) && v.time == le32(b, p + 12)
    }

    fn read(b: &[u8], p: usize, ctx: u32) -> (r: Option<(XsmPosKey, usize)>) {
        let (pos, q) = xsm_read_vec3d(b, p)?;
        let (time, q) = take_u32(b, q)?;
        Some((XsmPosKey { pos, time }, q))
    }
}

impl Record for XsmRotKey {
    open spec fn end(b: Seq<u8>, p: int, ctx: u32) -> Option<int> {
        if fits(b, p, 12) { Some(p + 12) } else { None }
    }

    open spec fn at(b: Seq<u8>, p: int, ctx: u32, v: XsmRotKey) -> bool {
        v.rot == quat16_at(b, p) && v.time == le32(b, p + 8)
    }

    fn read(b: &[u8], p: usize, ctx: u32) -> (r: Option<(XsmRotKey, usize)>) {
        let (rot, q) = xsm_read_quaternion16(b, p)?;
        let (time, q) = take_u32(b, q)?;
        Some((XsmRotKey { rot, time }, q))
    }
}

impl Record for XsmScaleKey {
    open spec fn end(b: Seq<u8>, p: int, ctx: u32) -> Option<int> {
        if fits(b, p, 16) { Some(p + 16) } else { None }
    }

    open spec fn at(b: Seq<u8>, p: int, ctx: u32, v: XsmScaleKey) -> bool {
        v.scale == xvec3_at(b, p) && v.time == le32(b, p + 12)
    }

    fn read(b: &[u8], p: usize, ctx: u32) -> (r: Option<(XsmScaleKey, usize)>) {
        let (scale, q) = xsm_read_vec3d(b, p)?;
        let (time, q) = take_u32(b, q)?;
        Some((XsmScaleKey { scale, time }, q))
    }
}

impl Record for XsmScaleRotKey {
    open spec fn end(b: Seq<u8>, p: int, ctx: u32) -> Option<int> {
        if fits(b, p, 12) { Some(p + 12) } else { None }
    }

    open spec fn at(b: Seq<u8>, p: int, ctx: u32, v: XsmScaleRotKey) -> bool {
        v.rot == quat16_at(b, p) && v.time == le32(b, p + 8)
    }

    fn read(b: &[u8], p: usize, ctx: u32) -> (r: Option<(XsmScaleRotKey, usize)>) {
        let (rot, q) = xsm_read_quaternion16(b, p)?;
        let (time, q) = take_u32(b, q)?;
        Some((XsmScaleRotKey { rot, time }, q))
    }
}

/// The motion of one bone: its poses, its key counts, its largest error,
/// its node's name and its keys.
pub struct XsmSubMotion {
    pub pose_rot: XsmQuaternion16,
    pub bind_pose_rot: XsmQuaternion16,
    pub pose_scale_rot: XsmQuaternion16,
    pub bind_pose_scale_rot: XsmQuaternion16,
    pub pose_pos: XsmVec3d,
    pub pose_scale: XsmVec3d,
    pub bind_pose_pos: XsmVec3d,
    pub bind_pose_scale_pos: XsmVec3d,
    pub num_pos_keys: i32,
    pub num_rot_keys: i32,
    pub num_scale_keys: i32,
    pub num_scale_rot_keys: i32,
    pub max_error: u32,
    pub node_name: String,
    pub pos_key: Vec<XsmPosKey>,
    pub rot_key: Vec<XsmRotKey>,
    pub scale_key: Vec<XsmScaleKey>,
    pub scale_rot_key: Vec<XsmScaleRotKey>,
}

/// Where the keys of the sub-motion at `p` start.
pub open spec fn keys_start(b: Seq<u8>, p: int) -> Option<int> {
    if fits(b, p, 100) {
        xstr_end(b, p + 100)
    } else {
        None
    }
}

pub open spec fn pos_keys_end(b: Seq<u8>, p: int) -> Option<int> {
    match keys_start(b, p) {
        Some(q) => list_end::<XsmPosKey>(b, q, 0, count_at(b, p + 80)),
        None => None,
    }
}

pub open spec fn rot_keys_end(b: Seq<u8>, p: int) -> Option<int> {
    match pos_keys_end(b, p) {
        Some(q) => list_end::<XsmRotKey>(b, q, 0, count_at(b, p + 84)),
        None => None,
    }
}

pub open spec fn scale_keys_end(b: Seq<u8>, p: int) -> Option<int> {
    match rot_keys_end(b, p) {
        Some(q) => list_end::<XsmScaleKey>(b, q, 0, count_at(b, p + 88)),
        None => None,
    }
}

impl Record for XsmSubMotion {
    open spec fn end(b: Seq<u8>, p: int, ctx: u32) -> Option<int> {
        match scale_keys_end(b, p) {
            Some(q) => list_end::<XsmScaleRotKey>(b, q, 0, count_at(b, p + 92)),
            None => None,
        }
    }

    open spec fn at(b: Seq<u8>, p: int, ctx: u32, v: XsmSubMotion) -> bool {
        &&& v.pose_rot == quat16_at(b, p)
        &&& v.bind_pose_rot == quat16_at(b, p + 8)
        &&& v.pose_scale_rot == quat16_at(b, p + 16)
        &&& v.bind_pose_scale_rot == quat16_at(b, p + 24)
        &&& v.pose_pos == xvec3_at(b, p + 32)
        &&& v.pose_scale == xvec3_at(b, p + 44)
        &&& v.bind_pose_pos == xvec3_at(b, p + 56)
        &&& v.bind_pose_scale_pos == xvec3_at(b, p + 68)
        &&& v.num_pos_keys == signed32(le32(b, p + 80))
        &&& v.num_rot_keys == signed32(le32(b, p + 84))
        &&& v.num_scale_keys == signed32(le32(b, p + 88))
        &&& v.num_scale_rot_keys == signed32(le32(b, p + 92))
        &&& v.max_error == le32(b, p + 96)
        &&& v.node_name@ == xstr_at(b, p + 100)
        &&& list_at::<XsmPosKey>(b, keys_start(b, p)->0, 0, count_at(b, p + 80), v.pos_key@)
        &&& list_at::<XsmRotKey>(b, pos_keys_end(b, p)->0, 0, count_at(b, p + 84), v.rot_key@)
        &&& list_at::<XsmScaleKey>(b, rot_keys_end(b, p)->0, 0, count_at(b, p + 88), v.scale_key@)
        &&& list_at::<XsmScaleRotKey>(b, scale_keys_end(b, p)->0, 0, count_at(b, p + 92), v.scale_rot_key@)
    }

    fn read(b: &[u8], p: usize, ctx: u32) -> (r: Option<(XsmSubMotion, usize)>) {
        let (pose_rot, q) = xsm_read_quaternion16(b, p)?;
        let (bind_pose_rot, q) = xsm_read_quaternion16(b, q)?;
        let (pose_scale_rot, q) = xsm_read_quaternion16(b, q)?;
        let (bind_pose_scale_rot, q) = xsm_read_quaternion16(b, q)?;
        let (pose_pos, q) = xsm_read_vec3d(b, q)?;
        let (pose_scale, q) = xsm_read_vec3d(b, q)?;
        let (bind_pose_pos, q) = xsm_read_vec3d(b, q)?;
        let (bind_pose_scale_pos, q) = xsm_read_vec3d(b, q)?;
        let (num_pos_keys, q) = take_i32(b, q)?;
        let (num_rot_keys, q) = take_i32(b, q)?;
        let (num_scale_keys, q) = take_i32(b, q)?;
        let (num_scale_rot_keys, q) = take_i32(b, q)?;
        let (max_error, q) = take_u32(b, q)?;
        let (node_name, q) = xac_read_string(b, q)?;
        let (pos_key, q) = read_list::<XsmPosKey>(b, q, 0, count_of(num_pos_keys))?;
        let (rot_key, q) = read_list::<XsmRotKey>(b, q, 0, count_of(num_rot_keys))?;
        let (scale_key, q) = read_list::<XsmScaleKey>(b, q, 0, count_of(num_scale_keys))?;
        let (scale_rot_key, q) = read_list::<XsmScaleRotKey>(b, q, 0, count_of(num_scale_rot_keys))?;
        Some((XsmSubMotion {
            pose_rot,
            bind_pose_rot,
            pose_scale_rot,
            bind_pose_scale_rot,
            pose_pos,
            pose_scale,
            bind_pose_pos,
            bind_pose_scale_pos,
            num_pos_keys,
            num_rot_keys,
            num_scale_keys,
            num_scale_rot_keys,
            max_error,
            node_name,
            pos_key,
            rot_key,
            scale_key,
            scale_rot_key,
        }, q))
    }
}

/// The motion's metadata.
pub struct XsmMetadata {
    pub unused: u32,
    pub max_acceptable_error: u32,
    pub fps: i32,
    pub exporter_major_version: u8,
    pub exporter_minor_version: u8,
    pub source_app: String,
    pub original_filename: String,
    pub export_date: String,
    pub motion_name: String,
}

impl Record for XsmMetadata {
    open spec fn end(b: Seq<u8>, p: int, ctx: u32) -> Option<int> {
        if fits(b, p, 16) {
            nth_text(b, p + 16, 4)
        } else {
            None
        }
    }

    open spec fn at(b: Seq<u8>, p: int, ctx: u32, v: XsmMetadata) -> bool {
        &&& v.unused == le32(b, p)
        &&& v.max_acceptable_error == le32(b, p + 4)
        &&& v.fps == signed32(le32(b, p + 8))
        &&& v.exporter_major_version == b[p + 12]
        &&& v.exporter_minor_version == b[p + 13]
        &&& v.source_app@ == xstr_at(b, nth_text(b, p + 16, 0)->0)
        &&& v.original_filename@ == xstr_at(b, nth_text(b, p + 16, 1)->0)
        &&& v.export_date@ == xstr_at(b, nth_text(b, p + 16, 2)->0)
        &&& v.motion_name@ == xstr_at(b, nth_text(b, p + 16, 3)->0)
    }

    fn read(b: &[u8], p: usize, ctx: u32) -> (r: Option<(XsmMetadata, usize)>) {
        proof {
            reveal_with_fuel(nth_text, 5);
        }
        let (unused, q) = take_u32(b, p)?;
        let (max_acceptable_error, q) = take_u32(b, q)?;
        let (fps, q) = take_i32(b, q)?;
        let (exporter_major_version, q) = take_u8(b, q)?;
        let (exporter_minor_version, q) = take_u8(b, q)?;
        let (_, q) = take_u8(b, q)?;
        let (_, q) = take_u8(b, q)?;
        let ghost t = q as int;
        let (source_app, q) = xac_read_string(b, q)?;
        assert(nth_text(b@, t, 1) == Some(q as int));
        let (original_filename, q) = xac_read_string(b, q)?;
        assert(nth_text(b@, t, 2) == Some(q as int));
        let (export_date, q) = xac_read_string(b, q)?;
        assert(nth_text(b@, t, 3) == Some(q as int));
        let (motion_name, q) = xac_read_string(b, q)?;
        assert(nth_text(b@, t, 4) == Some(q as int));
        Some((XsmMetadata {
            unused,
            max_acceptable_error,
            fps,
            exporter_major_version,
            exporter_minor_version,
            source_app,
            original_filename,
            export_date,
            motion_name,
        }, q))
    }
}

/// The bone animation: the sub-motion count of the last chunk and every
/// chunk's sub-motions.
pub struct XsmBoneAnimation {
    pub num_submotion: i32,
    pub skeletal_submotion: Vec<XsmSubMotion>,
}

/// Where the bone animation chunk at `p` ends, if the data holds it.
pub open spec fn animation_end(b: Seq<u8>, p: int) -> Option<int> {
    if fits(b, p, 4) {
        list_end::<XsmSubMotion>(b, p + 4, 0, count_at(b, p))
    } else {
        None
    }
}

/// The start of the file.
pub struct XsmHeader {
    pub magic: String,
    pub major_version: u8,
    pub minor_version: u8,
    pub big_endian: bool,
}

/// A chunk's frame.
pub struct XsmChunk {
    pub chunk_type: i32,
    pub length: i32,
    pub version: i32,
}

/// A whole motion file.
pub struct XsmFile {
    pub header: XsmHeader,
    pub metadata: XsmMetadata,
    pub bone_animation: XsmBoneAnimation,
}

/// Why a motion file cannot be read.
#[derive(Copy, Clone, PartialEq, Eq, Structural, Debug)]
pub enum XsmFileFault {
    /// The data ends inside the header, a chunk's frame or its record.
    UnexpectedEof,
    /// The four magic bytes are not UTF-8.
    InvalidMagic,
    /// A negative chunk length takes the next position below zero.
    LengthOverflow,
}

/// What is wrong with the header of `b`, if anything.
pub open spec fn xsm_header_fault(b: Seq<u8>) -> Option<XsmFileFault> {
    if b.len() < 4 {
        Some(XsmFileFault::UnexpectedEof)
    } else if !vstd::utf8::valid_utf8(b.subrange(0, 4)) {
        Some(XsmFileFault::InvalidMagic)
    } else if b.len() < 8 {
        Some(XsmFileFault::UnexpectedEof)
    } else {
        None
    }
}

/// The record of a chunk of kind `t` at `s` can be read.
pub open spec fn xsm_record_ok(b: Seq<u8>, t: int, s: int) -> bool {
    &&& t == 201 ==> XsmMetadata::end(b, s, 0) is Some
    &&& t == 202 ==> animation_end(b, s) is Some
}

/// How reading chunks ends: with the chunks read (kind and record start),
/// or with a fault.
pub enum XsmFileRun {
    Done(Seq<(int, int)>),
    Crash(XsmFileFault),
}

/// Reading chunks from `pos`: while `pos` is inside the data, a twelve-byte
/// frame (signed kind, length and version), the record of its kind, and
/// the next frame `length` bytes after the record's start; a negative
/// length moves the position past any data, unless it takes it below zero.
pub open spec fn xsm_frames_from(b: Seq<u8>, pos: int) -> XsmFileRun
    decreases b.len() - pos,
{
    if pos < 0 || pos >= b.len() {
        XsmFileRun::Done(Seq::empty())
    } else if !fits(b, pos, 12) {
        XsmFileRun::Crash(XsmFileFault::UnexpectedEof)
    } else {
        let t = signed32(le32(b, pos));
        let l = signed32(le32(b, pos + 4));
        let s = pos + 12;
        if !xsm_record_ok(b, t, s) {
            XsmFileRun::Crash(XsmFileFault::UnexpectedEof)
        } else if l < 0 && s + l >= 0 {
            XsmFileRun::Crash(XsmFileFault::LengthOverflow)
        } else if l < 0 || s + l >= b.len() {
            XsmFileRun::Done(seq![(t, s)])
        } else {
            match xsm_frames_from(b, s + l) {
                XsmFileRun::Done(fs) => XsmFileRun::Done(seq![(t, s)] + fs),
                other => other,
            }
        }
    }
}

/// Reading the whole file: the header, then the chunks after it.
pub open spec fn xsm_file_run(b: Seq<u8>) -> XsmFileRun {
    match xsm_header_fault(b) {
        Some(e) => XsmFileRun::Crash(e),
        None => xsm_frames_from(b, 8),
    }
}

pub open spec fn xsm_after(fr: Seq<(int, int)>, r: XsmFileRun) -> XsmFileRun {
    match r {
        XsmFileRun::Done(t) => XsmFileRun::Done(fr + t),
        other => other,
    }
}

/// Where the record of the last chunk of kind `t` among `fr` starts.
pub open spec fn xsm_last_of(fr: Seq<(int, int)>, t: int) -> Option<int>
    decreases fr.len(),
{
    if fr.len() == 0 {
        None
    } else if fr.last().0 == t {
        Some(fr.last().1)
    } else {
        xsm_last_of(fr.drop_last(), t)
    }
}

/// The sub-motion lists of the bone animation chunks among `fr`.
pub open spec fn animation_parts(b: Seq<u8>, fr: Seq<(int, int)>) -> Seq<(int, nat)>
    decreases fr.len(),
{
    if fr.len() == 0 {
        Seq::empty()
    } else if fr.last().0 == 202 {
        animation_parts(b, fr.drop_last()).push((fr.last().1 + 4, count_at(b, fr.last().1)))
    } else {
        animation_parts(b, fr.drop_last())
    }
}

proof fn lemma_xsm_push(b: Seq<u8>, fr: Seq<(int, int)>, f: (int, int))
    ensures
        forall|t: int| #[trigger] xsm_last_of(fr.push(f), t) == if f.0 == t { Some(f.1) } else { xsm_last_of(fr, t) },
        animation_parts(b, fr.push(f)) == if f.0 == 202 {
            animation_parts(b, fr).push((f.1 + 4, count_at(b, f.1)))
        } else {
            animation_parts(b, fr)
        },
{
    assert(fr.push(f).drop_last() =~= fr);
}

/// No metadata read.
pub open spec fn xsm_metadata_empty(m: XsmMetadata) -> bool {
    &&& m.unused == 0
    &&& m.max_acceptable_error == 0
    &&& m.fps == 0
    &&& m.exporter_major_version == 0
    &&& m.exporter_minor_version == 0
    &&& m.source_app@.len() == 0
    &&& m.original_filename@.len() == 0
    &&& m.export_date@.len() == 0
    &&& m.motion_name@.len() == 0
}

/// `x` is what reading `b` gives once the chunks `fr` are read: the header,
/// the metadata of the last metadata chunk, the sub-motion count of the
/// last bone animation chunk, and the sub-motions of every one, in order.
pub open spec fn xsm_file_at(b: Seq<u8>, fr: Seq<(int, int)>, x: XsmFile) -> bool {
    &&& x.header.magic@ == vstd::utf8::decode_utf8(b.subrange(0, 4))
    &&& x.header.major_version == b[4]
    &&& x.header.minor_version == b[5]
    &&& x.header.big_endian == (b[6] != 0)
    &&& match xsm_last_of(fr, 201) {
        Some(s) => XsmMetadata::at(b, s, 0, x.metadata),
        None => xsm_metadata_empty(x.metadata),
    }
    &&& x.bone_animation.num_submotion == match xsm_last_of(fr, 202) {
        Some(s) => signed32(le32(b, s)),
        None => 0,
    }
    &&& concat_at::<XsmSubMotion>(b, animation_parts(b, fr), x.bone_animation.skeletal_submotion@)
}

/// Reading `b` stops on a fault.
pub open spec fn xsm_file_fails(b: Seq<u8>) -> bool {
    xsm_file_run(b) is Crash
}

/// The path names a motion file: lowercased, it ends with ".xsm".
pub fn is_xsm_path(path: &str) -> (r: bool)
    ensures
        r == ends_with(lowercase(path@), seq!['.', 'x', 's', 'm']),
{
    let ext = ".xsm";
    proof {
        reveal_strlit(".xsm");
        assert(ext@ =~= seq!['.', 'x', 's', 'm']);
    }
    lower_ends_with(path, ext)
}

impl XsmFile {
    /// Reads a whole motion file: the header (four magic bytes as UTF-8 text,
    /// the version, the byte order flag and a padding byte), then, while the
    /// position is inside the data, a chunk frame, the record of its kind
    /// (metadata or bone animation), and the next frame `length` bytes after
    /// the record's start. Fails where the data ends inside something read,
    /// where the magic bytes are not UTF-8, and where a negative length takes
    /// the position below zero.
    #[verifier::rlimit(30)]
    pub fn try_load_from_bytes(bytes: Vec<u8>) -> (r: Result<XsmFile, XsmFileFault>)
        ensures
            match xsm_file_run(bytes@) {
                XsmFileRun::Done(fr) => r matches Ok(x) && xsm_file_at(bytes@, fr, x),
                XsmFileRun::Crash(e) => r == Err::<XsmFile, XsmFileFault>(e),
            },
    {
        let b = bytes.as_slice();
        if b.len() < 4 {
            return Err(XsmFileFault::UnexpectedEof);
        }
        let mut raw: Vec<u8> = Vec::new();
        raw.push(b[0]);
        raw.push(b[1]);
        raw.push(b[2]);
        raw.push(b[3]);
        assert(raw@ =~= b@.subrange(0, 4));
        let magic = match utf8_strict(raw) {
            Ok(m) => m,
            Err(_) => {
                return Err(XsmFileFault::InvalidMagic);
            },
        };
        if b.len() < 8 {
            return Err(XsmFileFault::UnexpectedEof);
        }
        let mut xsm = XsmFile {
            header: XsmHeader { magic, major_version: b[4], minor_version: b[5], big_endian: b[6] != 0 },
            metadata: XsmMetadata {
                unused: 0,
                max_acceptable_error: 0,
                fps: 0,
                exporter_major_version: 0,
                exporter_minor_version: 0,
                source_app: String::new(),
                original_filename: String::new(),
                export_date: String::new(),
                motion_name: String::new(),
            },
            bone_animation: XsmBoneAnimation { num_submotion: 0, skeletal_submotion: Vec::new() },
        };
        let mut pos: usize = 8;
        let ghost mut seen: Seq<(int, int)> = Seq::empty();
        loop
            invariant
                8 <= pos,
                b@ == bytes@,
                xsm_header_fault(b@) is None,
                xsm_file_run(b@) == xsm_after(seen, xsm_frames_from(b@, pos as int)),
                xsm_file_at(b@, seen, xsm),
            decreases b@.len() - pos,
        {
            if pos >= b.len() {
                assert(seen + Seq::<(int, int)>::empty() =~= seen);
                return Ok(xsm);
            }
            if b.len() - pos < 12 {
                return Err(XsmFileFault::UnexpectedEof);
            }
            let (chunk_type, q) = take_i32(b, pos).unwrap();
            let (length, q) = take_i32(b, q).unwrap();
            let (version, s) = take_i32(b, q).unwrap();
            let chunk = XsmChunk { chunk_type, length, version };
            let ghost f = (chunk.chunk_type as int, s as int);
            let ghost old_x = xsm;
            proof {
                lemma_xsm_push(b@, seen, f);
            }
            if chunk.chunk_type == 201 {
                match XsmMetadata::read(b, s, 0) {
                    Some((m, _)) => {
                        xsm.metadata = m;
                    },
                    None => {
                        return Err(XsmFileFault::UnexpectedEof);
                    },
                }
            }
            if chunk.chunk_type == 202 {
                match take_i32(b, s) {
                    None => {
                        return Err(XsmFileFault::UnexpectedEof);
                    },
                    Some((num_submotion, q)) => match read_list::<XsmSubMotion>(b, q, 0, count_of(num_submotion)) {
                        None => {
                            return Err(XsmFileFault::UnexpectedEof);
                        },
                        Some((mut subs, _)) => {
                            proof {
                                lemma_concat_push::<XsmSubMotion>(
                                    b@,
                                    animation_parts(b@, seen),
                                    old_x.bone_animation.skeletal_submotion@,
                                    s + 4,
                                    count_at(b@, s as int),
                                    subs@,
                                );
                            }
                            xsm.bone_animation.num_submotion = num_submotion;
                            xsm.bone_animation.skeletal_submotion.append(&mut subs);
                        },
                    },
                }
            }
            if chunk.length < 0 {
                if s as u64 >= (0i64 - chunk.length as i64) as u64 {
                    return Err(XsmFileFault::LengthOverflow);
                }
                proof {
                    assert(seen + seq![f] =~= seen.push(f));
                    seen = seen.push(f);
                }
                assert(seen + Seq::<(int, int)>::empty() =~= seen);
                return Ok(xsm);
            }
            let l = chunk.length as usize;
            proof {
                let next = s + l;
                if next < b@.len() {
                    match xsm_frames_from(b@, next) {
                        XsmFileRun::Done(fs) => {
                            assert(seen + (seq![f] + fs) =~= seen.push(f) + fs);
                        },
                        _ => {},
                    }
                } else {
                    assert(seen + seq![f] =~= seen.push(f));
                }
                seen = seen.push(f);
            }
            if b.len() - s <= l {
                assert(seen + Seq::<(int, int)>::empty() =~= seen);
                return Ok(xsm);
            }
            pos = s + l;
        }
    }

    /// Reads a whole motion file as `try_load_from_bytes` does; not to be
    /// called on data whose reading fails.
    pub fn load_from_bytes(bytes: Vec<u8>) -> (r: Result<XsmFile, XsmFileFault>)
        requires
            !xsm_file_fails(bytes@),
        ensures
            xsm_file_run(bytes@) matches XsmFileRun::Done(fr) && r matches Ok(x) && xsm_file_at(bytes@, fr, x),
    {
        XsmFile::try_load_from_bytes(bytes)
    }
}

/// Reads a whole motion file from its bytes as `XsmFile::load_from_bytes`
/// does (the same header, chunks and records); not to be called on data
/// whose reading fails.
pub fn xsm_parse(b: &[u8]) -> (r: XsmFile)
    requires
        !xsm_file_fails(b@),
    ensures
        xsm_file_run(b@) matches XsmFileRun::Done(fr) && xsm_file_at(b@, fr, r),
{
    let mut v: Vec<u8> = Vec::new();
    let mut i: usize = 0;
    while i < b.len()
        invariant
            i <= b@.len(),
            v@ == b@.subrange(0, i as int),
        decreases b@.len() - i,
    {
        v.push(b[i]);
        i = i + 1;
        assert(v@ =~= b@.subrange(0, i as int));
    }
    assert(v@ =~= b@);
    let r = XsmFile::try_load_from_bytes(v);
    r.unwrap()
}

} // verus!
