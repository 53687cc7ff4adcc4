//! XAC actor files: an eight-byte header, then chunks, each a twelve-byte
//! frame (kind, size, version) and the record of that kind and version.
//! Components that the format stores as 32-bit floats are kept here as their
//! bits, as stored.

use vstd::prelude::*;
use crate::bytes::{le16, le32, signed16, signed32};
use crate::decode::{fits, u16s_at, u32s_at, lstr_end, lstr_at, strs_end, str_pos, list_end, list_at, Record, take_u8, take_u16, take_u32, take_i16, take_i32, take_bytes, take_u16s, take_u32s, take_lstr, take_arr2, take_arr3, take_arr9, read_list, read_strs3, read_strs4, opt_list_end, opt_list_at, read_opt_list};

verus! {

// ------------------------------------------------------------------ kinds

/// Chunk kinds shared by the XAC, XSM and XPM formats.
#[derive(Debug, Clone, Copy, PartialEq, Eq, Structural)]
pub enum SharedChunk {
    SharedChunkMotioneventtable,
    SharedChunkTimestamp,
}

impl SharedChunk {
    /// The number that stands for the kind in a file.
    pub fn value(&self) -> (r: u32)
        ensures
            r == match *self {
                SharedChunk::SharedChunkMotioneventtable => 50u32,
                SharedChunk::SharedChunkTimestamp => 51u32,
            },
    {
        match self {
            SharedChunk::SharedChunkMotioneventtable => 50,
            SharedChunk::SharedChunkTimestamp => 51,
        }
    }
}

/// The order in which a transform's parts are multiplied.
#[derive(Debug, Clone, Copy, PartialEq, Eq, Structural)]
pub enum MatrixMulOrder {
    MulorderScaleRotTrans,
    MulorderRotScaleTrans,
}

impl MatrixMulOrder {
    /// The number that stands for the order in a file.
    pub fn value(&self) -> (r: u32)
        ensures
            r == match *self {
                MatrixMulOrder::MulorderScaleRotTrans => 0u32,
                MatrixMulOrder::MulorderRotScaleTrans => 1u32,
            },
    {
        match self {
            MatrixMulOrder::MulorderScaleRotTrans => 0,
            MatrixMulOrder::MulorderRotScaleTrans => 1,
        }
    }
}

/// How a mesh is deformed.
#[derive(Debug, Clone, Copy, PartialEq, Eq, Structural)]
pub enum MeshType {
    /// No deformers (it can still be moved, scaled and rotated).
    MeshtypeStatic,
    /// Deformed on the CPU.
    MeshtypeDynamic,
    /// Skinned on the GPU.
    MeshtypeGpuskinned,
}

impl MeshType {
    /// The number that stands for the type in a file.
    pub fn value(&self) -> (r: u32)
        ensures
            r == match *self {
                MeshType::MeshtypeStatic => 0u32,
                MeshType::MeshtypeDynamic => 1u32,
                MeshType::MeshtypeGpuskinned => 2u32,
            },
    {
        match self {
            MeshType::MeshtypeStatic => 0,
            MeshType::MeshtypeDynamic => 1,
            MeshType::MeshtypeGpuskinned => 2,
        }
    }
}

/// Sets of phonemes that a morph target stands for, one bit each.
#[derive(Debug, Clone, Copy, PartialEq, Eq, Structural)]
pub enum PhonemeSet {
    PhonemesetNone,
    PhonemesetNeutralPose,
    PhonemesetMBPX,
    PhonemesetAaAoOw,
    PhonemesetIhAeAhEyAyH,
    PhonemesetAw,
    PhonemesetNNgChJDhDGTKZZhThSSh,
    PhonemesetIyEhY,
    PhonemesetUwUhOy,
    PhonemesetFV,
    PhonemesetLEl,
    PhonemesetW,
    PhonemesetREr,
}

impl PhonemeSet {
    /// The bit that stands for the set in a file (none for the empty set).
    pub fn value(&self) -> (r: u32)
        ensures
            r == match *self {
                PhonemeSet::PhonemesetNone => 0u32,
                PhonemeSet::PhonemesetNeutralPose => 1u32,
                PhonemeSet::PhonemesetMBPX => 2u32,
                PhonemeSet::PhonemesetAaAoOw => 4u32,
                PhonemeSet::PhonemesetIhAeAhEyAyH => 8u32,
                PhonemeSet::PhonemesetAw => 16u32,
                PhonemeSet::PhonemesetNNgChJDhDGTKZZhThSSh => 32u32,
                PhonemeSet::PhonemesetIyEhY => 64u32,
                PhonemeSet::PhonemesetUwUhOy => 128u32,
                PhonemeSet::PhonemesetFV => 256u32,
                PhonemeSet::PhonemesetLEl => 512u32,
                PhonemeSet::PhonemesetW => 1024u32,
                PhonemeSet::PhonemesetREr => 2048u32,
            },
    {
        match self {
            PhonemeSet::PhonemesetNone => 0,
            PhonemeSet::PhonemesetNeutralPose => 1,
            PhonemeSet::PhonemesetMBPX => 2,
            PhonemeSet::PhonemesetAaAoOw => 4,
            PhonemeSet::PhonemesetIhAeAhEyAyH => 8,
            PhonemeSet::PhonemesetAw => 16,
            PhonemeSet::PhonemesetNNgChJDhDGTKZZhThSSh => 32,
            PhonemeSet::PhonemesetIyEhY => 64,
            PhonemeSet::PhonemesetUwUhOy => 128,
            PhonemeSet::PhonemesetFV => 256,
            PhonemeSet::PhonemesetLEl => 512,
            PhonemeSet::PhonemesetW => 1024,
            PhonemeSet::PhonemesetREr => 2048,
        }
    }
}

/// Wavelets used to compress motions.
#[derive(Debug, Clone, Copy, PartialEq, Eq, Structural)]
pub enum WaveletType {
    /// The fastest.
    WaveletHaar,
    /// Daubechies 4: better ratios, slower.
    WaveletDaub4,
    /// CDF 9/7: the slowest, often the best ratios.
    WaveletCdf97,
}

impl WaveletType {
    /// The number that stands for the wavelet in a file.
    pub fn value(&self) -> (r: u32)
        ensures
            r == match *self {
                WaveletType::WaveletHaar => 0u32,
                WaveletType::WaveletDaub4 => 1u32,
                WaveletType::WaveletCdf97 => 2u32,
            },
    {
        match self {
            WaveletType::WaveletHaar => 0,
            WaveletType::WaveletDaub4 => 1,
            WaveletType::WaveletCdf97 => 2,
        }
    }
}

/// Node flags, one bit each.
#[derive(Debug, Clone, Copy, PartialEq, Eq, Structural)]
pub enum NodeFlags {
    /// The node counts in bounds calculations.
    FlagIncludeinboundscalc,
    /// The node is an attachment.
    FlagAttachment,
}

impl NodeFlags {
    /// The bit that stands for the flag in a file.
    pub fn value(&self) -> (r: u32)
        ensures
            r == match *self {
                NodeFlags::FlagIncludeinboundscalc => 1u32,
                NodeFlags::FlagAttachment => 2u32,
            },
    {
        match self {
            NodeFlags::FlagIncludeinboundscalc => 1,
            NodeFlags::FlagAttachment => 2,
        }
    }
}

/// Coordinate planes.
#[derive(Debug, Clone, Copy, PartialEq, Eq, Structural)]
pub enum Plane {
    /// Z constant.
    PlaneXy,
    /// Y constant.
    PlaneXz,
    /// X constant.
    PlaneYz,
}

impl Plane {
    /// The number that stands for the plane in a file.
    pub fn value(&self) -> (r: u32)
        ensures
            r == match *self {
                Plane::PlaneXy => 0u32,
                Plane::PlaneXz => 1u32,
                Plane::PlaneYz => 2u32,
            },
    {
        match self {
            Plane::PlaneXy => 0,
            Plane::PlaneXz => 1,
            Plane::PlaneYz => 2,
        }
    }
}

/// What an actor shares with the actor it depends on, one bit each.
#[derive(Debug, Clone, Copy, PartialEq, Eq, Structural)]
pub enum DependencyType {
    DependencyMeshes,
    DependencyTransforms,
}

impl DependencyType {
    /// The bit that stands for the dependency in a file.
    pub fn value(&self) -> (r: u32)
        ensures
            r == match *self {
                DependencyType::DependencyMeshes => 1u32,
                DependencyType::DependencyTransforms => 2u32,
            },
    {
        match self {
            DependencyType::DependencyMeshes => 1,
            DependencyType::DependencyTransforms => 2,
        }
    }
}

/// What motion-based repositioning updates, one bit each.
#[derive(Debug, Clone, Copy, PartialEq, Eq, Structural)]
pub enum RepositioningMask {
    RepositionPosition,
    RepositionRotation,
    /// Not supported by the engine.
    RepositionScale,
}

impl RepositioningMask {
    /// The bit that stands for the part in a file.
    pub fn value(&self) -> (r: u32)
        ensures
            r == match *self {
                RepositioningMask::RepositionPosition => 1u32,
                RepositioningMask::RepositionRotation => 2u32,
                RepositioningMask::RepositionScale => 4u32,
            },
    {
        match self {
            RepositioningMask::RepositionPosition => 1,
            RepositioningMask::RepositionRotation => 2,
            RepositioningMask::RepositionScale => 4,
        }
    }
}

/// The order in which translation, rotation and scale are composed.
#[derive(Debug, Clone, Copy, PartialEq, Eq, Structural)]
pub enum MultiplicationOrder {
    /// Scale, rotation, translation.
    ScaleRotationTranslation,
    /// Rotation, scale, translation (the default).
    RotationScaleTranslation,
}

impl MultiplicationOrder {
    /// The number that stands for the order in a file.
    pub fn value(&self) -> (r: u32)
        ensures
            r == match *self {
                MultiplicationOrder::ScaleRotationTranslation => 0u32,
                MultiplicationOrder::RotationScaleTranslation => 1u32,
            },
    {
        match self {
            MultiplicationOrder::ScaleRotationTranslation => 0,
            MultiplicationOrder::RotationScaleTranslation => 1,
        }
    }
}

/// Limits on a node's transform, one bit each.
#[derive(Debug, Clone, Copy, PartialEq, Eq, Structural)]
pub enum LimitType {
    TranslationX,
    TranslationY,
    TranslationZ,
    RotationX,
    RotationY,
    RotationZ,
    ScaleX,
    ScaleY,
    ScaleZ,
}

impl LimitType {
    /// The bit that stands for the limit in a file.
    pub fn value(&self) -> (r: u32)
        ensures
            r == match *self {
                LimitType::TranslationX => 1u32,
                LimitType::TranslationY => 2u32,
                LimitType::TranslationZ => 4u32,
                LimitType::RotationX => 8u32,
                LimitType::RotationY => 16u32,
                LimitType::RotationZ => 32u32,
                LimitType::ScaleX => 64u32,
                LimitType::ScaleY => 128u32,
                LimitType::ScaleZ => 256u32,
            },
    {
        match self {
            LimitType::TranslationX => 1,
            LimitType::TranslationY => 2,
            LimitType::TranslationZ => 4,
            LimitType::RotationX => 8,
            LimitType::RotationY => 16,
            LimitType::RotationZ => 32,
            LimitType::ScaleX => 64,
            LimitType::ScaleY => 128,
            LimitType::ScaleZ => 256,
        }
    }
}

/// Kinds of vertex attribute layers.
#[derive(Debug, Clone, Copy, PartialEq, Eq, Structural)]
pub enum XACAttribute {
    AttribPositions,
    AttribNormals,
    AttribTangents,
    AttribUvcoords,
    AttribColors32,
    AttribOrgvtxnumbers,
    AttribColors128,
    AttribBitangents,
}

/// The attribute kind a number stands for, if any.
pub open spec fn attribute_of(val: u32) -> Option<XACAttribute> {
    if val == 0 {
        Some(XACAttribute::AttribPositions)
    } else if val == 1 {
        Some(XACAttribute::AttribNormals)
    } else if val == 2 {
        Some(XACAttribute::AttribTangents)
    } else if val == 3 {
        Some(XACAttribute::AttribUvcoords)
    } else if val == 4 {
        Some(XACAttribute::AttribColors32)
    } else if val == 5 {
        Some(XACAttribute::AttribOrgvtxnumbers)
    } else if val == 6 {
        Some(XACAttribute::AttribColors128)
    } else if val == 7 {
        Some(XACAttribute::AttribBitangents)
    } else {
        None
    }
}

impl XACAttribute {
    /// The number that stands for the attribute kind in a layer.
    pub fn value(&self) -> (r: u32)
        ensures
            attribute_of(r) == Some(*self),
            r == match *self {
                XACAttribute::AttribPositions => 0u32,
                XACAttribute::AttribNormals => 1u32,
                XACAttribute::AttribTangents => 2u32,
                XACAttribute::AttribUvcoords => 3u32,
                XACAttribute::AttribColors32 => 4u32,
                XACAttribute::AttribOrgvtxnumbers => 5u32,
                XACAttribute::AttribColors128 => 6u32,
                XACAttribute::AttribBitangents => 7u32,
            },
    {
        match self {
            XACAttribute::AttribPositions => 0,
            XACAttribute::AttribNormals => 1,
            XACAttribute::AttribTangents => 2,
            XACAttribute::AttribUvcoords => 3,
            XACAttribute::AttribColors32 => 4,
            XACAttribute::AttribOrgvtxnumbers => 5,
            XACAttribute::AttribColors128 => 6,
            XACAttribute::AttribBitangents => 7,
        }
    }

    /// The attribute kind that `val` stands for: the numbers 0 to 7 in the
    /// order of the variants; nothing for any other number.
    pub fn from_u32(val: u32) -> (r: Option<XACAttribute>)
        ensures
            r == attribute_of(val),
    {
        match val {
            0 => Some(XACAttribute::AttribPositions),
            1 => Some(XACAttribute::AttribNormals),
            2 => Some(XACAttribute::AttribTangents),
            3 => Some(XACAttribute::AttribUvcoords),
            4 => Some(XACAttribute::AttribColors32),
            5 => Some(XACAttribute::AttribOrgvtxnumbers),
            6 => Some(XACAttribute::AttribColors128),
            7 => Some(XACAttribute::AttribBitangents),
            _ => None,
        }
    }
}

/// Kinds of XAC chunks.
#[derive(Debug, Clone, Copy, PartialEq, Eq, Structural)]
pub enum XACChunk {
    XACChunkNode,
    XACChunkMesh,
    XACChunkSkinninginfo,
    XACChunkStdmaterial,
    XACChunkStdmateriallayer,
    XACChunkFxmaterial,
    XACChunkLimit,
    XACChunkInfo,
    XACChunkMeshlodlevels,
    XACChunkStdprogmorphtarget,
    XACChunkNodegroups,
    XACChunkNodes,
    XACChunkStdpmorphtargets,
    XACChunkMaterialinfo,
    XACChunkNodemotionsources,
    XACChunkAttachmentnodes,
    XACForce32bit,
}

impl XACChunk {
    /// The number that stands for the kind in a chunk's frame.
    pub open spec fn spec_id(self) -> u32 {
        match self {
            XACChunk::XACChunkNode => 0,
            XACChunk::XACChunkMesh => 1,
            XACChunk::XACChunkSkinninginfo => 2,
            XACChunk::XACChunkStdmaterial => 3,
            XACChunk::XACChunkStdmateriallayer => 4,
            XACChunk::XACChunkFxmaterial => 5,
            XACChunk::XACChunkLimit => 6,
            XACChunk::XACChunkInfo => 7,
            XACChunk::XACChunkMeshlodlevels => 8,
            XACChunk::XACChunkStdprogmorphtarget => 9,
            XACChunk::XACChunkNodegroups => 10,
            XACChunk::XACChunkNodes => 11,
            XACChunk::XACChunkStdpmorphtargets => 12,
            XACChunk::XACChunkMaterialinfo => 13,
            XACChunk::XACChunkNodemotionsources => 14,
            XACChunk::XACChunkAttachmentnodes => 15,
            XACChunk::XACForce32bit => 0xFFFF_FFFF,
        }
    }

    /// The number that stands for the kind in a chunk's frame.
    pub fn value(&self) -> (r: u32)
        ensures
            r == self.spec_id(),
    {
        match self {
            XACChunk::XACChunkNode => 0,
            XACChunk::XACChunkMesh => 1,
            XACChunk::XACChunkSkinninginfo => 2,
            XACChunk::XACChunkStdmaterial => 3,
            XACChunk::XACChunkStdmateriallayer => 4,
            XACChunk::XACChunkFxmaterial => 5,
            XACChunk::XACChunkLimit => 6,
            XACChunk::XACChunkInfo => 7,
            XACChunk::XACChunkMeshlodlevels => 8,
            XACChunk::XACChunkStdprogmorphtarget => 9,
            XACChunk::XACChunkNodegroups => 10,
            XACChunk::XACChunkNodes => 11,
            XACChunk::XACChunkStdpmorphtargets => 12,
            XACChunk::XACChunkMaterialinfo => 13,
            XACChunk::XACChunkNodemotionsources => 14,
            XACChunk::XACChunkAttachmentnodes => 15,
            XACChunk::XACForce32bit => 0xFFFF_FFFF,
        }
    }
}

/// Kinds of material layer maps.
#[derive(Debug, Clone, Copy, PartialEq, Eq, Structural)]
pub enum XACMaterialLayer {
    XACLayeridUnknown,
    XACLayeridAmbient,
    XACLayeridDiffuse,
    XACLayeridSpecular,
    XACLayeridOpacity,
    XACLayeridBump,
    XACLayeridSelfillum,
    XACLayeridShine,
    XACLayeridShinestrength,
    XACLayeridFiltercolor,
    XACLayeridReflect,
    XACLayeridRefract,
    XACLayeridEnvironment,
    XACLayeridDisplacement,
    XACLayeridForce8bit,
}

impl XACMaterialLayer {
    /// The number that stands for the map kind in a file.
    pub fn value(&self) -> (r: u32)
        ensures
            r == match *self {
                XACMaterialLayer::XACLayeridUnknown => 0u32,
                XACMaterialLayer::XACLayeridAmbient => 1u32,
                XACMaterialLayer::XACLayeridDiffuse => 2u32,
                XACMaterialLayer::XACLayeridSpecular => 3u32,
                XACMaterialLayer::XACLayeridOpacity => 4u32,
                XACMaterialLayer::XACLayeridBump => 5u32,
                XACMaterialLayer::XACLayeridSelfillum => 6u32,
                XACMaterialLayer::XACLayeridShine => 7u32,
                XACMaterialLayer::XACLayeridShinestrength => 8u32,
                XACMaterialLayer::XACLayeridFiltercolor => 9u32,
                XACMaterialLayer::XACLayeridReflect => 10u32,
                XACMaterialLayer::XACLayeridRefract => 11u32,
                XACMaterialLayer::XACLayeridEnvironment => 12u32,
                XACMaterialLayer::XACLayeridDisplacement => 13u32,
                XACMaterialLayer::XACLayeridForce8bit => 255u32,
            },
    {
        match self {
            XACMaterialLayer::XACLayeridUnknown => 0,
            XACMaterialLayer::XACLayeridAmbient => 1,
            XACMaterialLayer::XACLayeridDiffuse => 2,
            XACMaterialLayer::XACLayeridSpecular => 3,
            XACMaterialLayer::XACLayeridOpacity => 4,
            XACMaterialLayer::XACLayeridBump => 5,
            XACMaterialLayer::XACLayeridSelfillum => 6,
            XACMaterialLayer::XACLayeridShine => 7,
            XACMaterialLayer::XACLayeridShinestrength => 8,
            XACMaterialLayer::XACLayeridFiltercolor => 9,
            XACMaterialLayer::XACLayeridReflect => 10,
            XACMaterialLayer::XACLayeridRefract => 11,
            XACMaterialLayer::XACLayeridEnvironment => 12,
            XACMaterialLayer::XACLayeridDisplacement => 13,
            XACMaterialLayer::XACLayeridForce8bit => 255,
        }
    }
}

// ------------------------------------------------------------------ small records

/// A chunk's frame: its kind, the size of its record in bytes, and the
/// record's version.
pub struct FileChunk {
    pub chunk_id: u32,
    pub size_in_bytes: u32,
    pub version: u32,
}

impl Record for FileChunk {
    open spec fn end(b: Seq<u8>, p: int, ctx: u32) -> Option<int> {
        if fits(b, p, 12) { Some(p + 12) } else { None }
    }

    open spec fn at(b: Seq<u8>, p: int, ctx: u32, v: FileChunk) -> bool {
        &&& v.chunk_id == le32(b, p)
        &&& v.size_in_bytes == le32(b, p + 4)
        &&& v.version == le32(b, p + 8)
    }

    fn read(b: &[u8], p: usize, ctx: u32) -> (r: Option<(FileChunk, usize)>) {
        let (chunk_id, q) = take_u32(b, p)?;
        let (size_in_bytes, q) = take_u32(b, q)?;
        let (version, q) = take_u32(b, q)?;
        Some((FileChunk { chunk_id, size_in_bytes, version }, q))
    }
}

/// An RGBA color; each component holds the bits of a 32-bit float.
pub struct FileColor {
    pub r: u32,
    pub g: u32,
    pub b: u32,
    pub a: u32,
}

impl Record for FileColor {
    open spec fn end(b: Seq<u8>, p: int, ctx: u32) -> Option<int> {
        if fits(b, p, 16) { Some(p + 16) } else { None }
    }

    open spec fn at(b: Seq<u8>, p: int, ctx: u32, v: FileColor) -> bool {
        &&& v.r == le32(b, p)
        &&& v.g == le32(b, p + 4)
        &&& v.b == le32(b, p + 8)
        &&& v.a == le32(b, p + 12)
    }

    fn read(b: &[u8], p: usize, ctx: u32) -> (r: Option<(FileColor, usize)>) {
        let (r, q) = take_u32(b, p)?;
        let (g, q) = take_u32(b, q)?;
        let (bb, q) = take_u32(b, q)?;
        let (a, q) = take_u32(b, q)?;
        Some((FileColor { r, g, b: bb, a }, q))
    }
}

/// A 3D vector; each component holds the bits of a 32-bit float.
pub struct FileVector3 {
    pub x: u32,
    pub y: u32,
    pub z: u32,
}

impl Record for FileVector3 {
    open spec fn end(b: Seq<u8>, p: int, ctx: u32) -> Option<int> {
        if fits(b, p, 12) { Some(p + 12) } else { None }
    }

    open spec fn at(b: Seq<u8>, p: int, ctx: u32, v: FileVector3) -> bool {
        &&& v.x == le32(b, p)
        &&& v.y == le32(b, p + 4)
        &&& v.z == le32(b, p + 8)
    }

    fn read(b: &[u8], p: usize, ctx: u32) -> (r: Option<(FileVector3, usize)>) {
        let (x, q) = take_u32(b, p)?;
        let (y, q) = take_u32(b, q)?;
        let (z, q) = take_u32(b, q)?;
        Some((FileVector3 { x, y, z }, q))
    }
}

/// A compressed 3D vector with 16-bit components.
pub struct File16BitVector3 {
    pub x: u16,
    pub y: u16,
    pub z: u16,
}

impl Record for File16BitVector3 {
    open spec fn end(b: Seq<u8>, p: int, ctx: u32) -> Option<int> {
        if fits(b, p, 6) { Some(p + 6) } else { None }
    }

    open spec fn at(b: Seq<u8>, p: int, ctx: u32, v: File16BitVector3) -> bool {
        &&& v.x == le16(b, p)
        &&& v.y == le16(b, p + 2)
        &&& v.z == le16(b, p + 4)
    }

    fn read(b: &[u8], p: usize, ctx: u32) -> (r: Option<(File16BitVector3, usize)>) {
        let (x, q) = take_u16(b, p)?;
        let (y, q) = take_u16(b, q)?;
        let (z, q) = take_u16(b, q)?;
        Some((File16BitVector3 { x, y, z }, q))
    }
}

/// A compressed 3D vector with 8-bit components.
pub struct File8BitVector3 {
    pub x: u8,
    pub y: u8,
    pub z: u8,
}

impl Record for File8BitVector3 {
    open spec fn end(b: Seq<u8>, p: int, ctx: u32) -> Option<int> {
        if fits(b, p, 3) { Some(p + 3) } else { None }
    }

    open spec fn at(b: Seq<u8>, p: int, ctx: u32, v: File8BitVector3) -> bool {
        &&& v.x == b[p]
        &&& v.y == b[p + 1]
        &&& v.z == b[p + 2]
    }

    fn read(b: &[u8], p: usize, ctx: u32) -> (r: Option<(File8BitVector3, usize)>) {
        let (x, q) = take_u8(b, p)?;
        let (y, q) = take_u8(b, q)?;
        let (z, q) = take_u8(b, q)?;
        Some((File8BitVector3 { x, y, z }, q))
    }
}

/// A quaternion; each component holds the bits of a 32-bit float.
pub struct FileQuaternion {
    pub x: u32,
    pub y: u32,
    pub z: u32,
    pub w: u32,
}

impl Record for FileQuaternion {
    open spec fn end(b: Seq<u8>, p: int, ctx: u32) -> Option<int> {
        if fits(b, p, 16) { Some(p + 16) } else { None }
    }

    open spec fn at(b: Seq<u8>, p: int, ctx: u32, v: FileQuaternion) -> bool {
        &&& v.x == le32(b, p)
        &&& v.y == le32(b, p + 4)
        &&& v.z == le32(b, p + 8)
        &&& v.w == le32(b, p + 12)
    }

    fn read(b: &[u8], p: usize, ctx: u32) -> (r: Option<(FileQuaternion, usize)>) {
        let (x, q) = take_u32(b, p)?;
        let (y, q) = take_u32(b, q)?;
        let (z, q) = take_u32(b, q)?;
        let (w, q) = take_u32(b, q)?;
        Some((FileQuaternion { x, y, z, w }, q))
    }
}

/// A compressed quaternion with signed 16-bit components.
pub struct File16BitQuaternion {
    pub x: i16,
    pub y: i16,
    pub z: i16,
    pub w: i16,
}

impl Record for File16BitQuaternion {
    open spec fn end(b: Seq<u8>, p: int, ctx: u32) -> Option<int> {
        if fits(b, p, 8) { Some(p + 8) } else { None }
    }

    open spec fn at(b: Seq<u8>, p: int, ctx: u32, v: File16BitQuaternion) -> bool {
        &&& v.x == signed16(le16(b, p))
        &&& v.y == signed16(le16(b, p + 2))
        &&& v.z == signed16(le16(b, p + 4))
        &&& v.w == signed16(le16(b, p + 6))
    }

    fn read(b: &[u8], p: usize, ctx: u32) -> (r: Option<(File16BitQuaternion, usize)>) {
        let (x, q) = take_i16(b, p)?;
        let (y, q) = take_i16(b, q)?;
        let (z, q) = take_i16(b, q)?;
        let (w, q) = take_i16(b, q)?;
        Some((File16BitQuaternion { x, y, z, w }, q))
    }
}

/// The file header: the four bytes "XAC " read as one little-endian number,
/// the version, the byte order flag and the multiplication order.
pub struct XACHeader {
    pub fourcc: u32,
    pub hi_version: u8,
    pub lo_version: u8,
    pub endian_type: u8,
    pub mul_order: u8,
}

impl Record for XACHeader {
    open spec fn end(b: Seq<u8>, p: int, ctx: u32) -> Option<int> {
        if fits(b, p, 8) { Some(p + 8) } else { None }
    }

    open spec fn at(b: Seq<u8>, p: int, ctx: u32, v: XACHeader) -> bool {
        &&& v.fourcc == le32(b, p)
        &&& v.hi_version == b[p + 4]
        &&& v.lo_version == b[p + 5]
        &&& v.endian_type == b[p + 6]
        &&& v.mul_order == b[p + 7]
    }

    fn read(b: &[u8], p: usize, ctx: u32) -> (r: Option<(XACHeader, usize)>) {
        let (fourcc, q) = take_u32(b, p)?;
        let (hi_version, q) = take_u8(b, q)?;
        let (lo_version, q) = take_u8(b, q)?;
        let (endian_type, q) = take_u8(b, q)?;
        let (mul_order, q) = take_u8(b, q)?;
        Some((XACHeader { fourcc, hi_version, lo_version, endian_type, mul_order }, q))
    }
}

// ------------------------------------------------------------------ info

/// `v0` to `v3` are the four texts from `p`: source application, original
/// file name, compilation date, and actor (or motion) name.
pub open spec fn four_texts_at(
    b: Seq<u8>,
    p: int,
    v0: String,
    v1: String,
    v2: String,
    v3: String,
) -> bool {
    &&& v0@ == lstr_at(b, str_pos(b, p, 0))
    &&& v1@ == lstr_at(b, str_pos(b, p, 1))
    &&& v2@ == lstr_at(b, str_pos(b, p, 2))
    &&& v3@ == lstr_at(b, str_pos(b, p, 3))
}

/// Where a fixed part of `n` bytes at `p` and four texts after it end.
pub open spec fn fixed_and_four_texts_end(b: Seq<u8>, p: int, n: int) -> Option<int> {
    if fits(b, p, n) { strs_end(b, p + n, 4) } else { None }
}

/// The actor's info, first version.
pub struct XACInfo {
    pub repositioning_mask: u32,
    pub repositioning_node_index: u32,
    pub exporter_high_version: u8,
    pub exporter_low_version: u8,
    pub padding: u16,
    pub source_app: String,
    pub original_filename: String,
    pub compilation_date: String,
    pub actor_name: String,
}

impl Record for XACInfo {
    open spec fn end(b: Seq<u8>, p: int, ctx: u32) -> Option<int> {
        fixed_and_four_texts_end(b, p, 12)
    }

    open spec fn at(b: Seq<u8>, p: int, ctx: u32, v: XACInfo) -> bool {
        &&& v.repositioning_mask == le32(b, p)
        &&& v.repositioning_node_index == le32(b, p + 4)
        &&& v.exporter_high_version == b[p + 8]
        &&& v.exporter_low_version == b[p + 9]
        &&& v.padding == le16(b, p + 10)
        &&& four_texts_at(b, p + 12, v.source_app, v.original_filename, v.compilation_date, v.actor_name)
    }

    fn read(b: &[u8], p: usize, ctx: u32) -> (r: Option<(XACInfo, usize)>) {
        let (repositioning_mask, q) = take_u32(b, p)?;
        let (repositioning_node_index, q) = take_u32(b, q)?;
        let (exporter_high_version, q) = take_u8(b, q)?;
        let (exporter_low_version, q) = take_u8(b, q)?;
        let (padding, q) = take_u16(b, q)?;
        let ((source_app, original_filename, compilation_date, actor_name), q) = read_strs4(b, q)?;
        Some((XACInfo {
            repositioning_mask,
            repositioning_node_index,
            exporter_high_version,
            exporter_low_version,
            padding,
            source_app,
            original_filename,
            compilation_date,
            actor_name,
        }, q))
    }
}

/// The actor's info, second version; `retarget_root_offset` holds the bits
/// of a 32-bit float.
pub struct XACInfo2 {
    pub repositioning_mask: u32,
    pub repositioning_node_index: u32,
    pub exporter_high_version: u8,
    pub exporter_low_version: u8,
    pub retarget_root_offset: u32,
    pub padding: u16,
    pub source_app: String,
    pub original_filename: String,
    pub compilation_date: String,
    pub actor_name: String,
}

impl Record for XACInfo2 {
    open spec fn end(b: Seq<u8>, p: int, ctx: u32) -> Option<int> {
        fixed_and_four_texts_end(b, p, 16)
    }

    open spec fn at(b: Seq<u8>, p: int, ctx: u32, v: XACInfo2) -> bool {
        &&& v.repositioning_mask == le32(b, p)
        &&& v.repositioning_node_index == le32(b, p + 4)
        &&& v.exporter_high_version == b[p + 8]
        &&& v.exporter_low_version == b[p + 9]
        &&& v.retarget_root_offset == le32(b, p + 10)
        &&& v.padding == le16(b, p + 14)
        &&& four_texts_at(b, p + 16, v.source_app, v.original_filename, v.compilation_date, v.actor_name)
    }

    fn read(b: &[u8], p: usize, ctx: u32) -> (r: Option<(XACInfo2, usize)>) {
        let (repositioning_mask, q) = take_u32(b, p)?;
        let (repositioning_node_index, q) = take_u32(b, q)?;
        let (exporter_high_version, q) = take_u8(b, q)?;
        let (exporter_low_version, q) = take_u8(b, q)?;
        let (retarget_root_offset, q) = take_u32(b, q)?;
        let (padding, q) = take_u16(b, q)?;
        let ((source_app, original_filename, compilation_date, actor_name), q) = read_strs4(b, q)?;
        Some((XACInfo2 {
            repositioning_mask,
            repositioning_node_index,
            exporter_high_version,
            exporter_low_version,
            retarget_root_offset,
            padding,
            source_app,
            original_filename,
            compilation_date,
            actor_name,
        }, q))
    }
}

/// The actor's info, third version; `retarget_root_offset` holds the bits
/// of a 32-bit float.
pub struct XACInfo3 {
    pub trajectory_node_index: u32,
    pub motion_extraction_node_index: u32,
    pub motion_extraction_mask: u32,
    pub exporter_high_version: u8,
    pub exporter_low_version: u8,
    pub retarget_root_offset: u32,
    pub padding: u16,
    pub source_app: String,
    pub original_filename: String,
    pub compilation_date: String,
    pub actor_name: String,
}

impl Record for XACInfo3 {
    open spec fn end(b: Seq<u8>, p: int, ctx: u32) -> Option<int> {
        fixed_and_four_texts_end(b, p, 20)
    }

    open spec fn at(b: Seq<u8>, p: int, ctx: u32, v: XACInfo3) -> bool {
        &&& v.trajectory_node_index == le32(b, p)
        &&& v.motion_extraction_node_index == le32(b, p + 4)
        &&& v.motion_extraction_mask == le32(b, p + 8)
        &&& v.exporter_high_version == b[p + 12]
        &&& v.exporter_low_version == b[p + 13]
        &&& v.retarget_root_offset == le32(b, p + 14)
        &&& v.padding == le16(b, p + 18)
        &&& four_texts_at(b, p + 20, v.source_app, v.original_filename, v.compilation_date, v.actor_name)
    }

    fn read(b: &[u8], p: usize, ctx: u32) -> (r: Option<(XACInfo3, usize)>) {
        let (trajectory_node_index, q) = take_u32(b, p)?;
        let (motion_extraction_node_index, q) = take_u32(b, q)?;
        let (motion_extraction_mask, q) = take_u32(b, q)?;
        let (exporter_high_version, q) = take_u8(b, q)?;
        let (exporter_low_version, q) = take_u8(b, q)?;
        let (retarget_root_offset, q) = take_u32(b, q)?;
        let (padding, q) = take_u16(b, q)?;
        let ((source_app, original_filename, compilation_date, actor_name), q) = read_strs4(b, q)?;
        Some((XACInfo3 {
            trajectory_node_index,
            motion_extraction_node_index,
            motion_extraction_mask,
            exporter_high_version,
            exporter_low_version,
            retarget_root_offset,
            padding,
            source_app,
            original_filename,
            compilation_date,
            actor_name,
        }, q))
    }
}

/// The actor's info, fourth version; `retarget_root_offset` holds the bits
/// of a 32-bit float.
pub struct XACInfo4 {
    pub num_lods: u32,
    pub trajectory_node_index: u32,
    pub motion_extraction_node_index: u32,
    pub exporter_high_version: u8,
    pub exporter_low_version: u8,
    pub retarget_root_offset: u32,
    pub padding: u16,
    pub source_app: String,
    pub original_filename: String,
    pub compilation_date: String,
    pub actor_name: String,
}

impl Record for XACInfo4 {
    open spec fn end(b: Seq<u8>, p: int, ctx: u32) -> Option<int> {
        fixed_and_four_texts_end(b, p, 20)
    }

    open spec fn at(b: Seq<u8>, p: int, ctx: u32, v: XACInfo4) -> bool {
        &&& v.num_lods == le32(b, p)
        &&& v.trajectory_node_index == le32(b, p + 4)
        &&& v.motion_extraction_node_index == le32(b, p + 8)
        &&& v.exporter_high_version == b[p + 12]
        &&& v.exporter_low_version == b[p + 13]
        &&& v.retarget_root_offset == le32(b, p + 14)
        &&& v.padding == le16(b, p + 18)
        &&& four_texts_at(b, p + 20, v.source_app, v.original_filename, v.compilation_date, v.actor_name)
    }

    fn read(b: &[u8], p: usize, ctx: u32) -> (r: Option<(XACInfo4, usize)>) {
        let (num_lods, q) = take_u32(b, p)?;
        let (trajectory_node_index, q) = take_u32(b, q)?;
        let (motion_extraction_node_index, q) = take_u32(b, q)?;
        let (exporter_high_version, q) = take_u8(b, q)?;
        let (exporter_low_version, q) = take_u8(b, q)?;
        let (retarget_root_offset, q) = take_u32(b, q)?;
        let (padding, q) = take_u16(b, q)?;
        let ((source_app, original_filename, compilation_date, actor_name), q) = read_strs4(b, q)?;
        Some((XACInfo4 {
            num_lods,
            trajectory_node_index,
            motion_extraction_node_index,
            exporter_high_version,
            exporter_low_version,
            retarget_root_offset,
            padding,
            source_app,
            original_filename,
            compilation_date,
            actor_name,
        }, q))
    }
}

// ------------------------------------------------------------------ nodes

/// Where a fixed part of `n` bytes at `p` and one text after it end.
pub open spec fn fixed_and_text_end(b: Seq<u8>, p: int, n: int) -> Option<int> {
    if fits(b, p, n) { lstr_end(b, p + n) } else { None }
}

/// The transform every node version starts with, at `p`.
pub open spec fn node_base_at(
    b: Seq<u8>,
    p: int,
    local_quat: FileQuaternion,
    scale_rot: FileQuaternion,
    local_pos: FileVector3,
    local_scale: FileVector3,
    shear: FileVector3,
) -> bool {
    &&& FileQuaternion::at(b, p, 0, local_quat)
    &&& FileQuaternion::at(b, p + 16, 0, scale_rot)
    &&& FileVector3::at(b, p + 32, 0, local_pos)
    &&& FileVector3::at(b, p + 44, 0, local_scale)
    &&& FileVector3::at(b, p + 56, 0, shear)
}

fn read_node_base(b: &[u8], p: usize) -> (r: Option<
    ((FileQuaternion, FileQuaternion, FileVector3, FileVector3, FileVector3), usize),
>)
    ensures
        r is Some <==> fits(b@, p as int, 68),
        r is Some ==> {
            let (t, q) = r->0;
            q == p + 68 && node_base_at(b@, p as int, t.0, t.1, t.2, t.3, t.4)
        },
{
    let (local_quat, q) = FileQuaternion::read(b, p, 0)?;
    let (scale_rot, q) = FileQuaternion::read(b, q, 0)?;
    let (local_pos, q) = FileVector3::read(b, q, 0)?;
    let (local_scale, q) = FileVector3::read(b, q, 0)?;
    let (shear, q) = FileVector3::read(b, q, 0)?;
    Some(((local_quat, scale_rot, local_pos, local_scale, shear), q))
}

/// A node of the skeleton, first version.
pub struct XACNode {
    pub local_quat: FileQuaternion,
    pub scale_rot: FileQuaternion,
    pub local_pos: FileVector3,
    pub local_scale: FileVector3,
    pub shear: FileVector3,
    pub skeletal_lods: u32,
    pub parent_index: u32,
    pub node_name: String,
}

impl Record for XACNode {
    open spec fn end(b: Seq<u8>, p: int, ctx: u32) -> Option<int> {
        fixed_and_text_end(b, p, 76)
    }

    open spec fn at(b: Seq<u8>, p: int, ctx: u32, v: XACNode) -> bool {
        &&& node_base_at(b, p, v.local_quat, v.scale_rot, v.local_pos, v.local_scale, v.shear)
        &&& v.skeletal_lods == le32(b, p + 68)
        &&& v.parent_index == le32(b, p + 72)
        &&& v.node_name@ == lstr_at(b, p + 76)
    }

    fn read(b: &[u8], p: usize, ctx: u32) -> (r: Option<(XACNode, usize)>) {
        let ((local_quat, scale_rot, local_pos, local_scale, shear), q) = read_node_base(b, p)?;
        let (skeletal_lods, q) = take_u32(b, q)?;
        let (parent_index, q) = take_u32(b, q)?;
        let (node_name, q) = take_lstr(b, q)?;
        Some((XACNode {
            local_quat,
            scale_rot,
            local_pos,
            local_scale,
            shear,
            skeletal_lods,
            parent_index,
            node_name,
        }, q))
    }
}

/// A node of the skeleton, second version.
pub struct XACNode2 {
    pub local_quat: FileQuaternion,
    pub scale_rot: FileQuaternion,
    pub local_pos: FileVector3,
    pub local_scale: FileVector3,
    pub shear: FileVector3,
    pub skeletal_lods: u32,
    pub parent_index: u32,
    pub node_flags: u8,
    pub padding: [u8; 3],
    pub node_name: String,
}

impl Record for XACNode2 {
    open spec fn end(b: Seq<u8>, p: int, ctx: u32) -> Option<int> {
        fixed_and_text_end(b, p, 80)
    }

    open spec fn at(b: Seq<u8>, p: int, ctx: u32, v: XACNode2) -> bool {
        &&& node_base_at(b, p, v.local_quat, v.scale_rot, v.local_pos, v.local_scale, v.shear)
        &&& v.skeletal_lods == le32(b, p + 68)
        &&& v.parent_index == le32(b, p + 72)
        &&& v.node_flags == b[p + 76]
        &&& v.padding@ == b.subrange(p + 77, p + 80)
        &&& v.node_name@ == lstr_at(b, p + 80)
    }

    fn read(b: &[u8], p: usize, ctx: u32) -> (r: Option<(XACNode2, usize)>) {
        let ((local_quat, scale_rot, local_pos, local_scale, shear), q) = read_node_base(b, p)?;
        let (skeletal_lods, q) = take_u32(b, q)?;
        let (parent_index, q) = take_u32(b, q)?;
        let (node_flags, q) = take_u8(b, q)?;
        let (padding, q) = take_arr3(b, q)?;
        let (node_name, q) = take_lstr(b, q)?;
        Some((XACNode2 {
            local_quat,
            scale_rot,
            local_pos,
            local_scale,
            shear,
            skeletal_lods,
            parent_index,
            node_flags,
            padding,
            node_name,
        }, q))
    }
}

/// A node of the skeleton, third version; the sixteen values of `obb` (an
/// oriented bounding box) hold the bits of 32-bit floats.
pub struct XACNode3 {
    pub local_quat: FileQuaternion,
    pub scale_rot: FileQuaternion,
    pub local_pos: FileVector3,
    pub local_scale: FileVector3,
    pub shear: FileVector3,
    pub skeletal_lods: u32,
    pub parent_index: u32,
    pub node_flags: u8,
    pub obb: Vec<u32>,
    pub padding: [u8; 3],
    pub node_name: String,
}

impl Record for XACNode3 {
    open spec fn end(b: Seq<u8>, p: int, ctx: u32) -> Option<int> {
        fixed_and_text_end(b, p, 144)
    }

    open spec fn at(b: Seq<u8>, p: int, ctx: u32, v: XACNode3) -> bool {
        &&& node_base_at(b, p, v.local_quat, v.scale_rot, v.local_pos, v.local_scale, v.shear)
        &&& v.skeletal_lods == le32(b, p + 68)
        &&& v.parent_index == le32(b, p + 72)
        &&& v.node_flags == b[p + 76]
        &&& v.obb@ == u32s_at(b, p + 77, 16)
        &&& v.padding@ == b.subrange(p + 141, p + 144)
        &&& v.node_name@ == lstr_at(b, p + 144)
    }

    fn read(b: &[u8], p: usize, ctx: u32) -> (r: Option<(XACNode3, usize)>) {
        let ((local_quat, scale_rot, local_pos, local_scale, shear), q) = read_node_base(b, p)?;
        let (skeletal_lods, q) = take_u32(b, q)?;
        let (parent_index, q) = take_u32(b, q)?;
        let (node_flags, q) = take_u8(b, q)?;
        let (obb, q) = take_u32s(b, q, 16)?;
        let (padding, q) = take_arr3(b, q)?;
        let (node_name, q) = take_lstr(b, q)?;
        Some((XACNode3 {
            local_quat,
            scale_rot,
            local_pos,
            local_scale,
            shear,
            skeletal_lods,
            parent_index,
            node_flags,
            obb,
            padding,
            node_name,
        }, q))
    }
}

/// A node of the skeleton, fourth version; the sixteen values of `obb` and
/// `importance_factor` hold the bits of 32-bit floats.
pub struct XACNode4 {
    pub local_quat: FileQuaternion,
    pub scale_rot: FileQuaternion,
    pub local_pos: FileVector3,
    pub local_scale: FileVector3,
    pub shear: FileVector3,
    pub skeletal_lods: u32,
    pub motion_lods: u32,
    pub parent_index: u32,
    pub num_children: u32,
    pub node_flags: u8,
    pub obb: Vec<u32>,
    pub importance_factor: u32,
    pub padding: [u8; 3],
    pub node_name: String,
}

impl Record for XACNode4 {
    open spec fn end(b: Seq<u8>, p: int, ctx: u32) -> Option<int> {
        fixed_and_text_end(b, p, 156)
    }

    open spec fn at(b: Seq<u8>, p: int, ctx: u32, v: XACNode4) -> bool {
        &&& node_base_at(b, p, v.local_quat, v.scale_rot, v.local_pos, v.local_scale, v.shear)
        &&& v.skeletal_lods == le32(b, p + 68)
        &&& v.motion_lods == le32(b, p + 72)
        &&& v.parent_index == le32(b, p + 76)
        &&& v.num_children == le32(b, p + 80)
        &&& v.node_flags == b[p + 84]
        &&& v.obb@ == u32s_at(b, p + 85, 16)
        &&& v.importance_factor == le32(b, p + 149)
        &&& v.padding@ == b.subrange(p + 153, p + 156)
        &&& v.node_name@ == lstr_at(b, p + 156)
    }

    fn read(b: &[u8], p: usize, ctx: u32) -> (r: Option<(XACNode4, usize)>) {
        let ((local_quat, scale_rot, local_pos, local_scale, shear), q) = read_node_base(b, p)?;
        let (skeletal_lods, q) = take_u32(b, q)?;
        let (motion_lods, q) = take_u32(b, q)?;
        let (parent_index, q) = take_u32(b, q)?;
        let (num_children, q) = take_u32(b, q)?;
        let (node_flags, q) = take_u8(b, q)?;
        let (obb, q) = take_u32s(b, q, 16)?;
        let (importance_factor, q) = take_u32(b, q)?;
        let (padding, q) = take_arr3(b, q)?;
        let (node_name, q) = take_lstr(b, q)?;
        Some((XACNode4 {
            local_quat,
            scale_rot,
            local_pos,
            local_scale,
            shear,
            skeletal_lods,
            motion_lods,
            parent_index,
            num_children,
            node_flags,
            obb,
            importance_factor,
            padding,
            node_name,
        }, q))
    }
}

// ------------------------------------------------------------------ skinning

/// A level of detail: its number and the bytes of its model.
pub struct XACMeshLodLevel {
    pub lod_level: u32,
    pub size_in_bytes: u32,
    pub lod_model_file: Vec<u8>,
}

impl Record for XACMeshLodLevel {
    open spec fn end(b: Seq<u8>, p: int, ctx: u32) -> Option<int> {
        if fits(b, p, 8) && fits(b, p + 8, le32(b, p + 4)) {
            Some(p + 8 + le32(b, p + 4))
        } else {
            None
        }
    }

    open spec fn at(b: Seq<u8>, p: int, ctx: u32, v: XACMeshLodLevel) -> bool {
        &&& v.lod_level == le32(b, p)
        &&& v.size_in_bytes == le32(b, p + 4)
        &&& v.lod_model_file@ == b.subrange(p + 8, p + 8 + le32(b, p + 4))
    }

    fn read(b: &[u8], p: usize, ctx: u32) -> (r: Option<(XACMeshLodLevel, usize)>) {
        let (lod_level, q) = take_u32(b, p)?;
        let (size_in_bytes, q) = take_u32(b, q)?;
        let (lod_model_file, q) = take_bytes(b, q, size_in_bytes as usize)?;
        Some((XACMeshLodLevel { lod_level, size_in_bytes, lod_model_file }, q))
    }
}

/// One bone's influence on a vertex; `weight` holds the bits of a 32-bit
/// float.
pub struct XACSkinInfluence {
    pub weight: u32,
    pub node_number: u32,
}

impl Record for XACSkinInfluence {
    open spec fn end(b: Seq<u8>, p: int, ctx: u32) -> Option<int> {
        if fits(b, p, 8) { Some(p + 8) } else { None }
    }

    open spec fn at(b: Seq<u8>, p: int, ctx: u32, v: XACSkinInfluence) -> bool {
        &&& v.weight == le32(b, p)
        &&& v.node_number == le32(b, p + 4)
    }

    fn read(b: &[u8], p: usize, ctx: u32) -> (r: Option<(XACSkinInfluence, usize)>) {
        let (weight, q) = take_u32(b, p)?;
        let (node_number, q) = take_u32(b, q)?;
        Some((XACSkinInfluence { weight, node_number }, q))
    }
}

/// Where a vertex's influences start in the table of influences, and how
/// many there are.
pub struct XACSkinningInfoTableEntry {
    pub start_index: u32,
    pub num_elements: u32,
}

impl Record for XACSkinningInfoTableEntry {
    open spec fn end(b: Seq<u8>, p: int, ctx: u32) -> Option<int> {
        if fits(b, p, 8) { Some(p + 8) } else { None }
    }

    open spec fn at(b: Seq<u8>, p: int, ctx: u32, v: XACSkinningInfoTableEntry) -> bool {
        &&& v.start_index == le32(b, p)
        &&& v.num_elements == le32(b, p + 4)
    }

    fn read(b: &[u8], p: usize, ctx: u32) -> (r: Option<(XACSkinningInfoTableEntry, usize)>) {
        let (start_index, q) = take_u32(b, p)?;
        let (num_elements, q) = take_u32(b, q)?;
        Some((XACSkinningInfoTableEntry { start_index, num_elements }, q))
    }
}

/// A vertex's influences: their count, then that many influences.
pub struct XACSkinInfoPerVertex {
    pub num_influences: u8,
    pub influences: Vec<XACSkinInfluence>,
}

impl Record for XACSkinInfoPerVertex {
    open spec fn end(b: Seq<u8>, p: int, ctx: u32) -> Option<int> {
        if fits(b, p, 1) {
            list_end::<XACSkinInfluence>(b, p + 1, 0, b[p] as nat)
        } else {
            None
        }
    }

    open spec fn at(b: Seq<u8>, p: int, ctx: u32, v: XACSkinInfoPerVertex) -> bool {
        &&& v.num_influences == b[p]
        &&& list_at::<XACSkinInfluence>(b, p + 1, 0, b[p] as nat, v.influences@)
    }

    fn read(b: &[u8], p: usize, ctx: u32) -> (r: Option<(XACSkinInfoPerVertex, usize)>) {
        let (num_influences, q) = take_u8(b, p)?;
        let (influences, q) = read_list::<XACSkinInfluence>(b, q, 0, num_influences as u32)?;
        Some((XACSkinInfoPerVertex { num_influences, influences }, q))
    }
}

/// Skinning, first version: one entry per original vertex, their number
/// given by `ctx`.
pub struct XACSkinningInfo {
    pub node_index: u32,
    pub is_for_collision_mesh: u8,
    pub padding: [u8; 3],
    pub skinning_influence: Vec<XACSkinInfoPerVertex>,
}

impl Record for XACSkinningInfo {
    open spec fn end(b: Seq<u8>, p: int, ctx: u32) -> Option<int> {
        if fits(b, p, 8) {
            list_end::<XACSkinInfoPerVertex>(b, p + 8, 0, ctx as nat)
        } else {
            None
        }
    }

    open spec fn at(b: Seq<u8>, p: int, ctx: u32, v: XACSkinningInfo) -> bool {
        &&& v.node_index == le32(b, p)
        &&& v.is_for_collision_mesh == b[p + 4]
        &&& v.padding@ == b.subrange(p + 5, p + 8)
        &&& list_at::<XACSkinInfoPerVertex>(b, p + 8, 0, ctx as nat, v.skinning_influence@)
    }

    fn read(b: &[u8], p: usize, ctx: u32) -> (r: Option<(XACSkinningInfo, usize)>) {
        let (node_index, q) = take_u32(b, p)?;
        let (is_for_collision_mesh, q) = take_u8(b, q)?;
        let (padding, q) = take_arr3(b, q)?;
        let (skinning_influence, q) = read_list::<XACSkinInfoPerVertex>(b, q, 0, ctx)?;
        Some((XACSkinningInfo { node_index, is_for_collision_mesh, padding, skinning_influence }, q))
    }
}

/// Where a run of `n` influences at `p` and a table of `ctx` entries after
/// it end.
pub open spec fn influences_and_table_end(b: Seq<u8>, p: int, n: nat, ctx: u32) -> Option<int> {
    match list_end::<XACSkinInfluence>(b, p, 0, n) {
        Some(q) => list_end::<XACSkinningInfoTableEntry>(b, q, 0, ctx as nat),
        None => None,
    }
}

/// `infl` and `table` are the influences at `p` and the table after them.
pub open spec fn influences_and_table_at(
    b: Seq<u8>,
    p: int,
    n: nat,
    ctx: u32,
    infl: Seq<XACSkinInfluence>,
    table: Seq<XACSkinningInfoTableEntry>,
) -> bool {
    &&& list_at::<XACSkinInfluence>(b, p, 0, n, infl)
    &&& list_at::<XACSkinningInfoTableEntry>(
        b,
        list_end::<XACSkinInfluence>(b, p, 0, n)->0,
        0,
        ctx as nat,
        table,
    )
}

fn read_influences_and_table(b: &[u8], p: usize, n: u32, ctx: u32) -> (r: Option<
    ((Vec<XACSkinInfluence>, Vec<XACSkinningInfoTableEntry>), usize),
>)
    ensures
        r is Some <==> influences_and_table_end(b@, p as int, n as nat, ctx) is Some,
        r is Some ==> {
            let (t, q) = r->0;
            &&& q == influences_and_table_end(b@, p as int, n as nat, ctx)->0
            &&& influences_and_table_at(b@, p as int, n as nat, ctx, t.0@, t.1@)
        },
{
    let (infl, q) = read_list::<XACSkinInfluence>(b, p, 0, n)?;
    let (table, q) = read_list::<XACSkinningInfoTableEntry>(b, q, 0, ctx)?;
    Some(((infl, table), q))
}

/// Skinning, second version: the influences of all vertices, then a table
/// with one entry per original vertex, their number given by `ctx`.
pub struct XACSkinningInfo2 {
    pub node_index: u32,
    pub num_total_influences: u32,
    pub is_for_collision_mesh: u8,
    pub padding: [u8; 3],
    pub skinning_influence: Vec<XACSkinInfluence>,
    pub skinning_info_table_entry: Vec<XACSkinningInfoTableEntry>,
}

impl Record for XACSkinningInfo2 {
    open spec fn end(b: Seq<u8>, p: int, ctx: u32) -> Option<int> {
        if fits(b, p, 12) {
            influences_and_table_end(b, p + 12, le32(b, p + 4) as nat, ctx)
        } else {
            None
        }
    }

    open spec fn at(b: Seq<u8>, p: int, ctx: u32, v: XACSkinningInfo2) -> bool {
        &&& v.node_index == le32(b, p)
        &&& v.num_total_influences == le32(b, p + 4)
        &&& v.is_for_collision_mesh == b[p + 8]
        &&& v.padding@ == b.subrange(p + 9, p + 12)
        &&& influences_and_table_at(
            b,
            p + 12,
            le32(b, p + 4) as nat,
            ctx,
            v.skinning_influence@,
            v.skinning_info_table_entry@,
        )
    }

    fn read(b: &[u8], p: usize, ctx: u32) -> (r: Option<(XACSkinningInfo2, usize)>) {
        let (node_index, q) = take_u32(b, p)?;
        let (num_total_influences, q) = take_u32(b, q)?;
        let (is_for_collision_mesh, q) = take_u8(b, q)?;
        let (padding, q) = take_arr3(b, q)?;
        let ((skinning_influence, skinning_info_table_entry), q) = read_influences_and_table(
            b,
            q,
            num_total_influences,
            ctx,
        )?;
        Some((XACSkinningInfo2 {
            node_index,
            num_total_influences,
            is_for_collision_mesh,
            padding,
            skinning_influence,
            skinning_info_table_entry,
        }, q))
    }
}

/// Skinning, third version: as the second, with the number of local bones.
pub struct XACSkinningInfo3 {
    pub node_index: u32,
    pub num_local_bones: u32,
    pub num_total_influences: u32,
    pub is_for_collision_mesh: u8,
    pub padding: [u8; 3],
    pub skinning_influence: Vec<XACSkinInfluence>,
    pub skinning_info_table_entry: Vec<XACSkinningInfoTableEntry>,
}

impl Record for XACSkinningInfo3 {
    open spec fn end(b: Seq<u8>, p: int, ctx: u32) -> Option<int> {
        if fits(b, p, 16) {
            influences_and_table_end(b, p + 16, le32(b, p + 8) as nat, ctx)
        } else {
            None
        }
    }

    open spec fn at(b: Seq<u8>, p: int, ctx: u32, v: XACSkinningInfo3) -> bool {
        &&& v.node_index == le32(b, p)
        &&& v.num_local_bones == le32(b, p + 4)
        &&& v.num_total_influences == le32(b, p + 8)
        &&& v.is_for_collision_mesh == b[p + 12]
        &&& v.padding@ == b.subrange(p + 13, p + 16)
        &&& influences_and_table_at(
            b,
            p + 16,
            le32(b, p + 8) as nat,
            ctx,
            v.skinning_influence@,
            v.skinning_info_table_entry@,
        )
    }

    fn read(b: &[u8], p: usize, ctx: u32) -> (r: Option<(XACSkinningInfo3, usize)>) {
        let (node_index, q) = take_u32(b, p)?;
        let (num_local_bones, q) = take_u32(b, q)?;
        let (num_total_influences, q) = take_u32(b, q)?;
        let (is_for_collision_mesh, q) = take_u8(b, q)?;
        let (padding, q) = take_arr3(b, q)?;
        let ((skinning_influence, skinning_info_table_entry), q) = read_influences_and_table(
            b,
            q,
            num_total_influences,
            ctx,
        )?;
        Some((XACSkinningInfo3 {
            node_index,
            num_local_bones,
            num_total_influences,
            is_for_collision_mesh,
            padding,
            skinning_influence,
            skinning_info_table_entry,
        }, q))
    }
}

/// Skinning, fourth version: as the third, with a level of detail.
pub struct XACSkinningInfo4 {
    pub node_index: u32,
    pub lod: u32,
    pub num_local_bones: u32,
    pub num_total_influences: u32,
    pub is_for_collision_mesh: u8,
    pub padding: [u8; 3],
    pub skinning_influence: Vec<XACSkinInfluence>,
    pub skinning_info_table_entry: Vec<XACSkinningInfoTableEntry>,
}

impl Record for XACSkinningInfo4 {
    open spec fn end(b: Seq<u8>, p: int, ctx: u32) -> Option<int> {
        if fits(b, p, 20) {
            influences_and_table_end(b, p + 20, le32(b, p + 12) as nat, ctx)
        } else {
            None
        }
    }

    open spec fn at(b: Seq<u8>, p: int, ctx: u32, v: XACSkinningInfo4) -> bool {
        &&& v.node_index == le32(b, p)
        &&& v.lod == le32(b, p + 4)
        &&& v.num_local_bones == le32(b, p + 8)
        &&& v.num_total_influences == le32(b, p + 12)
        &&& v.is_for_collision_mesh == b[p + 16]
        &&& v.padding@ == b.subrange(p + 17, p + 20)
        &&& influences_and_table_at(
            b,
            p + 20,
            le32(b, p + 12) as nat,
            ctx,
            v.skinning_influence@,
            v.skinning_info_table_entry@,
        )
    }

    fn read(b: &[u8], p: usize, ctx: u32) -> (r: Option<(XACSkinningInfo4, usize)>) {
        let (node_index, q) = take_u32(b, p)?;
        let (lod, q) = take_u32(b, q)?;
        let (num_local_bones, q) = take_u32(b, q)?;
        let (num_total_influences, q) = take_u32(b, q)?;
        let (is_for_collision_mesh, q) = take_u8(b, q)?;
        let (padding, q) = take_arr3(b, q)?;
        let ((skinning_influence, skinning_info_table_entry), q) = read_influences_and_table(
            b,
            q,
            num_total_influences,
            ctx,
        )?;
        Some((XACSkinningInfo4 {
            node_index,
            lod,
            num_local_bones,
            num_total_influences,
            is_for_collision_mesh,
            padding,
            skinning_influence,
            skinning_info_table_entry,
        }, q))
    }
}

// ------------------------------------------------------------------ materials

/// The colors and numbers every standard material version starts with, at
/// `p`: four colors, then shine, shine strength, opacity and index of
/// refraction as the bits of 32-bit floats.
pub open spec fn material_base_at(
    b: Seq<u8>,
    p: int,
    colors: (FileColor, FileColor, FileColor, FileColor),
    numbers: (u32, u32, u32, u32),
) -> bool {
    &&& FileColor::at(b, p, 0, colors.0)
    &&& FileColor::at(b, p + 16, 0, colors.1)
    &&& FileColor::at(b, p + 32, 0, colors.2)
    &&& FileColor::at(b, p + 48, 0, colors.3)
    &&& numbers.0 == le32(b, p + 64)
    &&& numbers.1 == le32(b, p + 68)
    &&& numbers.2 == le32(b, p + 72)
    &&& numbers.3 == le32(b, p + 76)
}

fn read_material_base(b: &[u8], p: usize) -> (r: Option<
    (((FileColor, FileColor, FileColor, FileColor), (u32, u32, u32, u32)), usize),
>)
    ensures
        r is Some <==> fits(b@, p as int, 80),
        r is Some ==> {
            let (t, q) = r->0;
            q == p + 80 && material_base_at(b@, p as int, t.0, t.1)
        },
{
    let (ambient, q) = FileColor::read(b, p, 0)?;
    let (diffuse, q) = FileColor::read(b, q, 0)?;
    let (specular, q) = FileColor::read(b, q, 0)?;
    let (emissive, q) = FileColor::read(b, q, 0)?;
    let (shine, q) = take_u32(b, q)?;
    let (shine_strength, q) = take_u32(b, q)?;
    let (opacity, q) = take_u32(b, q)?;
    let (ior, q) = take_u32(b, q)?;
    Some((((ambient, diffuse, specular, emissive), (shine, shine_strength, opacity, ior)), q))
}

/// A standard material, first version. The colors and `shine`,
/// `shine_strength`, `opacity` and `ior` hold the bits of 32-bit floats.
pub struct XACStandardMaterial {
    pub ambient: FileColor,
    pub diffuse: FileColor,
    pub specular: FileColor,
    pub emissive: FileColor,
    pub shine: u32,
    pub shine_strength: u32,
    pub opacity: u32,
    pub ior: u32,
    pub double_sided: u8,
    pub wireframe: u8,
    pub transparency_type: u8,
    pub padding: u8,
    pub material_name: String,
}

impl Record for XACStandardMaterial {
    open spec fn end(b: Seq<u8>, p: int, ctx: u32) -> Option<int> {
        fixed_and_text_end(b, p, 84)
    }

    open spec fn at(b: Seq<u8>, p: int, ctx: u32, v: XACStandardMaterial) -> bool {
        &&& material_base_at(
            b,
            p,
            (v.ambient, v.diffuse, v.specular, v.emissive),
            (v.shine, v.shine_strength, v.opacity, v.ior),
        )
        &&& v.double_sided == b[p + 80]
        &&& v.wireframe == b[p + 81]
        &&& v.transparency_type == b[p + 82]
        &&& v.padding == b[p + 83]
        &&& v.material_name@ == lstr_at(b, p + 84)
    }

    fn read(b: &[u8], p: usize, ctx: u32) -> (r: Option<(XACStandardMaterial, usize)>) {
        let (((ambient, diffuse, specular, emissive), (shine, shine_strength, opacity, ior)), q) =
            read_material_base(b, p)?;
        let (double_sided, q) = take_u8(b, q)?;
        let (wireframe, q) = take_u8(b, q)?;
        let (transparency_type, q) = take_u8(b, q)?;
        let (padding, q) = take_u8(b, q)?;
        let (material_name, q) = take_lstr(b, q)?;
        Some((XACStandardMaterial {
            ambient,
            diffuse,
            specular,
            emissive,
            shine,
            shine_strength,
            opacity,
            ior,
            double_sided,
            wireframe,
            transparency_type,
            padding,
            material_name,
        }, q))
    }
}

/// The numbers every material layer version starts with, at `p`: amount,
/// offsets, tiling and rotation as the bits of 32-bit floats.
pub open spec fn layer_base_at(b: Seq<u8>, p: int, f: (u32, u32, u32, u32, u32, u32)) -> bool {
    &&& f.0 == le32(b, p)
    &&& f.1 == le32(b, p + 4)
    &&& f.2 == le32(b, p + 8)
    &&& f.3 == le32(b, p + 12)
    &&& f.4 == le32(b, p + 16)
    &&& f.5 == le32(b, p + 20)
}

fn read_layer_base(b: &[u8], p: usize) -> (r: Option<((u32, u32, u32, u32, u32, u32), usize)>)
    ensures
        r is Some <==> fits(b@, p as int, 24),
        r is Some ==> {
            let (t, q) = r->0;
            q == p + 24 && layer_base_at(b@, p as int, t)
        },
{
    let (amount, q) = take_u32(b, p)?;
    let (u_offset, q) = take_u32(b, q)?;
    let (v_offset, q) = take_u32(b, q)?;
    let (u_tiling, q) = take_u32(b, q)?;
    let (v_tiling, q) = take_u32(b, q)?;
    let (rotation_radians, q) = take_u32(b, q)?;
    Some(((amount, u_offset, v_offset, u_tiling, v_tiling, rotation_radians), q))
}

/// A material layer, first version: a texture with its placement. The
/// first six fields hold the bits of 32-bit floats.
pub struct XACStandardMaterialLayer {
    pub amount: u32,
    pub u_offset: u32,
    pub v_offset: u32,
    pub u_tiling: u32,
    pub v_tiling: u32,
    pub rotation_radians: u32,
    pub material_number: u16,
    pub map_type: u8,
    pub padding: u8,
    pub texture_name: String,
}

impl Record for XACStandardMaterialLayer {
    open spec fn end(b: Seq<u8>, p: int, ctx: u32) -> Option<int> {
        fixed_and_text_end(b, p, 28)
    }

    open spec fn at(b: Seq<u8>, p: int, ctx: u32, v: XACStandardMaterialLayer) -> bool {
        &&& layer_base_at(
            b,
            p,
            (v.amount, v.u_offset, v.v_offset, v.u_tiling, v.v_tiling, v.rotation_radians),
        )
        &&& v.material_number == le16(b, p + 24)
        &&& v.map_type == b[p + 26]
        &&& v.padding == b[p + 27]
        &&& v.texture_name@ == lstr_at(b, p + 28)
    }

    fn read(b: &[u8], p: usize, ctx: u32) -> (r: Option<(XACStandardMaterialLayer, usize)>) {
        let ((amount, u_offset, v_offset, u_tiling, v_tiling, rotation_radians), q) =
            read_layer_base(b, p)?;
        let (material_number, q) = take_u16(b, q)?;
        let (map_type, q) = take_u8(b, q)?;
        let (padding, q) = take_u8(b, q)?;
        let (texture_name, q) = take_lstr(b, q)?;
        Some((XACStandardMaterialLayer {
            amount,
            u_offset,
            v_offset,
            u_tiling,
            v_tiling,
            rotation_radians,
            material_number,
            map_type,
            padding,
            texture_name,
        }, q))
    }
}

/// A material layer, second version: as the first, with a blend mode in
/// place of the padding.
pub struct XACStandardMaterialLayer2 {
    pub amount: u32,
    pub u_offset: u32,
    pub v_offset: u32,
    pub u_tiling: u32,
    pub v_tiling: u32,
    pub rotation_radians: u32,
    pub material_number: u16,
    pub map_type: u8,
    pub blend_mode: u8,
    pub texture_name: String,
}

impl Record for XACStandardMaterialLayer2 {
    open spec fn end(b: Seq<u8>, p: int, ctx: u32) -> Option<int> {
        fixed_and_text_end(b, p, 28)
    }

    open spec fn at(b: Seq<u8>, p: int, ctx: u32, v: XACStandardMaterialLayer2) -> bool {
        &&& layer_base_at(
            b,
            p,
            (v.amount, v.u_offset, v.v_offset, v.u_tiling, v.v_tiling, v.rotation_radians),
        )
        &&& v.material_number == le16(b, p + 24)
        &&& v.map_type == b[p + 26]
        &&& v.blend_mode == b[p + 27]
        &&& v.texture_name@ == lstr_at(b, p + 28)
    }

    fn read(b: &[u8], p: usize, ctx: u32) -> (r: Option<(XACStandardMaterialLayer2, usize)>) {
        let ((amount, u_offset, v_offset, u_tiling, v_tiling, rotation_radians), q) =
            read_layer_base(b, p)?;
        let (material_number, q) = take_u16(b, q)?;
        let (map_type, q) = take_u8(b, q)?;
        let (blend_mode, q) = take_u8(b, q)?;
        let (texture_name, q) = take_lstr(b, q)?;
        Some((XACStandardMaterialLayer2 {
            amount,
            u_offset,
            v_offset,
            u_tiling,
            v_tiling,
            rotation_radians,
            material_number,
            map_type,
            blend_mode,
            texture_name,
        }, q))
    }
}

/// Where a text at `p` and `n` second-version layers after it end.
pub open spec fn name_and_layers_end(b: Seq<u8>, p: int, n: nat) -> Option<int> {
    match lstr_end(b, p) {
        Some(q) => list_end::<XACStandardMaterialLayer2>(b, q, 0, n),
        None => None,
    }
}

fn read_name_and_layers(b: &[u8], p: usize, n: u8) -> (r: Option<
    ((String, Vec<XACStandardMaterialLayer2>), usize),
>)
    ensures
        r is Some <==> name_and_layers_end(b@, p as int, n as nat) is Some,
        r is Some ==> {
            let (t, q) = r->0;
            &&& q == name_and_layers_end(b@, p as int, n as nat)->0
            &&& t.0@ == lstr_at(b@, p as int)
            &&& list_at::<XACStandardMaterialLayer2>(
                b@,
                lstr_end(b@, p as int)->0,
                0,
                n as nat,
                t.1@,
            )
        },
{
    let (name, q) = take_lstr(b, p)?;
    let (layers, q) = read_list::<XACStandardMaterialLayer2>(b, q, 0, n as u32)?;
    Some(((name, layers), q))
}

/// A standard material, second version: as the first, with the number of
/// its layers in place of the padding and the layers after the name.
pub struct XACStandardMaterial2 {
    pub ambient: FileColor,
    pub diffuse: FileColor,
    pub specular: FileColor,
    pub emissive: FileColor,
    pub shine: u32,
    pub shine_strength: u32,
    pub opacity: u32,
    pub ior: u32,
    pub double_sided: u8,
    pub wireframe: u8,
    pub transparency_type: u8,
    pub num_layers: u8,
    pub material_name: String,
    pub standard_material_layer2: Vec<XACStandardMaterialLayer2>,
}

impl Record for XACStandardMaterial2 {
    open spec fn end(b: Seq<u8>, p: int, ctx: u32) -> Option<int> {
        if fits(b, p, 84) {
            name_and_layers_end(b, p + 84, b[p + 83] as nat)
        } else {
            None
        }
    }

    open spec fn at(b: Seq<u8>, p: int, ctx: u32, v: XACStandardMaterial2) -> bool {
        &&& material_base_at(
            b,
            p,
            (v.ambient, v.diffuse, v.specular, v.emissive),
            (v.shine, v.shine_strength, v.opacity, v.ior),
        )
        &&& v.double_sided == b[p + 80]
        &&& v.wireframe == b[p + 81]
        &&& v.transparency_type == b[p + 82]
        &&& v.num_layers == b[p + 83]
        &&& v.material_name@ == lstr_at(b, p + 84)
        &&& list_at::<XACStandardMaterialLayer2>(
            b,
            lstr_end(b, p + 84)->0,
            0,
            b[p + 83] as nat,
            v.standard_material_layer2@,
        )
    }

    fn read(b: &[u8], p: usize, ctx: u32) -> (r: Option<(XACStandardMaterial2, usize)>) {
        let (((ambient, diffuse, specular, emissive), (shine, shine_strength, opacity, ior)), q) =
            read_material_base(b, p)?;
        let (double_sided, q) = take_u8(b, q)?;
        let (wireframe, q) = take_u8(b, q)?;
        let (transparency_type, q) = take_u8(b, q)?;
        let (num_layers, q) = take_u8(b, q)?;
        let ((material_name, standard_material_layer2), q) = read_name_and_layers(
            b,
            q,
            num_layers,
        )?;
        Some((XACStandardMaterial2 {
            ambient,
            diffuse,
            specular,
            emissive,
            shine,
            shine_strength,
            opacity,
            ior,
            double_sided,
            wireframe,
            transparency_type,
            num_layers,
            material_name,
            standard_material_layer2,
        }, q))
    }
}

/// A standard material, third version: as the second, after a level of
/// detail.
pub struct XACStandardMaterial3 {
    pub lod: u32,
    pub ambient: FileColor,
    pub diffuse: FileColor,
    pub specular: FileColor,
    pub emissive: FileColor,
    pub shine: u32,
    pub shine_strength: u32,
    pub opacity: u32,
    pub ior: u32,
    pub double_sided: u8,
    pub wireframe: u8,
    pub transparency_type: u8,
    pub num_layers: u8,
    pub material_name: String,
    pub standard_material_layer2: Vec<XACStandardMaterialLayer2>,
}

impl Record for XACStandardMaterial3 {
    open spec fn end(b: Seq<u8>, p: int, ctx: u32) -> Option<int> {
        if fits(b, p, 88) {
            name_and_layers_end(b, p + 88, b[p + 87] as nat)
        } else {
            None
        }
    }

    open spec fn at(b: Seq<u8>, p: int, ctx: u32, v: XACStandardMaterial3) -> bool {
        &&& v.lod == le32(b, p)
        &&& material_base_at(
            b,
            p + 4,
            (v.ambient, v.diffuse, v.specular, v.emissive),
            (v.shine, v.shine_strength, v.opacity, v.ior),
        )
        &&& v.double_sided == b[p + 84]
        &&& v.wireframe == b[p + 85]
        &&& v.transparency_type == b[p + 86]
        &&& v.num_layers == b[p + 87]
        &&& v.material_name@ == lstr_at(b, p + 88)
        &&& list_at::<XACStandardMaterialLayer2>(
            b,
            lstr_end(b, p + 88)->0,
            0,
            b[p + 87] as nat,
            v.standard_material_layer2@,
        )
    }

    fn read(b: &[u8], p: usize, ctx: u32) -> (r: Option<(XACStandardMaterial3, usize)>) {
        let (lod, q) = take_u32(b, p)?;
        let (((ambient, diffuse, specular, emissive), (shine, shine_strength, opacity, ior)), q) =
            read_material_base(b, q)?;
        let (double_sided, q) = take_u8(b, q)?;
        let (wireframe, q) = take_u8(b, q)?;
        let (transparency_type, q) = take_u8(b, q)?;
        let (num_layers, q) = take_u8(b, q)?;
        let ((material_name, standard_material_layer2), q) = read_name_and_layers(
            b,
            q,
            num_layers,
        )?;
        Some((XACStandardMaterial3 {
            lod,
            ambient,
            diffuse,
            specular,
            emissive,
            shine,
            shine_strength,
            opacity,
            ior,
            double_sided,
            wireframe,
            transparency_type,
            num_layers,
            material_name,
            standard_material_layer2,
        }, q))
    }
}

// ------------------------------------------------------------------ meshes

/// Where the `size * verts` bytes at `p` end, if that count fits in 32 bits
/// and the data holds them; a count beyond 32 bits is not read.
pub open spec fn layer_data_end(b: Seq<u8>, p: int, size: int, verts: int) -> Option<int> {
    if size * verts <= u32::MAX && fits(b, p, size * verts) {
        Some(p + size * verts)
    } else {
        None
    }
}

/// A vertex attribute layer: its kind, the size of one vertex's value, two
/// flags, and the values of all `ctx` vertices as bytes.
pub struct XACVertexAttributeLayer {
    pub layer_type_id: u32,
    pub attrib_size_in_bytes: u32,
    pub enable_deformations: u8,
    pub is_scale: u8,
    pub padding: [u8; 2],
    pub mesh_data: Vec<u8>,
}

impl Record for XACVertexAttributeLayer {
    open spec fn end(b: Seq<u8>, p: int, ctx: u32) -> Option<int> {
        if fits(b, p, 12) {
            layer_data_end(b, p + 12, le32(b, p + 4), ctx as int)
        } else {
            None
        }
    }

    open spec fn at(b: Seq<u8>, p: int, ctx: u32, v: XACVertexAttributeLayer) -> bool {
        &&& v.layer_type_id == le32(b, p)
        &&& v.attrib_size_in_bytes == le32(b, p + 4)
        &&& v.enable_deformations == b[p + 8]
        &&& v.is_scale == b[p + 9]
        &&& v.padding@ == b.subrange(p + 10, p + 12)
        &&& v.mesh_data@ == b.subrange(p + 12, p + 12 + le32(b, p + 4) * ctx)
    }

    fn read(b: &[u8], p: usize, ctx: u32) -> (r: Option<(XACVertexAttributeLayer, usize)>) {
        let (layer_type_id, q) = take_u32(b, p)?;
        let (attrib_size_in_bytes, q) = take_u32(b, q)?;
        let (enable_deformations, q) = take_u8(b, q)?;
        let (is_scale, q) = take_u8(b, q)?;
        let (padding, q) = take_arr2(b, q)?;
        let count = attrib_size_in_bytes.checked_mul(ctx)?;
        let (mesh_data, q) = take_bytes(b, q, count as usize)?;
        Some((XACVertexAttributeLayer {
            layer_type_id,
            attrib_size_in_bytes,
            enable_deformations,
            is_scale,
            padding,
            mesh_data,
        }, q))
    }
}

/// A submesh: counts, the material, then its indices and its bones.
pub struct XACSubMesh {
    pub num_indices: u32,
    pub num_verts: u32,
    pub material_index: u32,
    pub num_bones: u32,
    pub indices: Vec<u32>,
    pub bones: Vec<u32>,
}

impl Record for XACSubMesh {
    open spec fn end(b: Seq<u8>, p: int, ctx: u32) -> Option<int> {
        if fits(b, p, 16) && fits(b, p + 16, 4 * le32(b, p)) && fits(
            b,
            p + 16 + 4 * le32(b, p),
            4 * le32(b, p + 12),
        ) {
            Some(p + 16 + 4 * le32(b, p) + 4 * le32(b, p + 12))
        } else {
            None
        }
    }

    open spec fn at(b: Seq<u8>, p: int, ctx: u32, v: XACSubMesh) -> bool {
        &&& v.num_indices == le32(b, p)
        &&& v.num_verts == le32(b, p + 4)
        &&& v.material_index == le32(b, p + 8)
        &&& v.num_bones == le32(b, p + 12)
        &&& v.indices@ == u32s_at(b, p + 16, le32(b, p) as nat)
        &&& v.bones@ == u32s_at(b, p + 16 + 4 * le32(b, p), le32(b, p + 12) as nat)
    }

    fn read(b: &[u8], p: usize, ctx: u32) -> (r: Option<(XACSubMesh, usize)>) {
        let (num_indices, q) = take_u32(b, p)?;
        let (num_verts, q) = take_u32(b, q)?;
        let (material_index, q) = take_u32(b, q)?;
        let (num_bones, q) = take_u32(b, q)?;
        let (indices, q) = take_u32s(b, q, num_indices)?;
        let (bones, q) = take_u32s(b, q, num_bones)?;
        Some((XACSubMesh { num_indices, num_verts, material_index, num_bones, indices, bones }, q))
    }
}

/// Where `nl` attribute layers of `verts` vertices from `p` and `ns`
/// submeshes after them end.
pub open spec fn layers_and_submeshes_end(
    b: Seq<u8>,
    p: int,
    verts: u32,
    nl: nat,
    ns: nat,
) -> Option<int> {
    match list_end::<XACVertexAttributeLayer>(b, p, verts, nl) {
        Some(q) => list_end::<XACSubMesh>(b, q, 0, ns),
        None => None,
    }
}

/// `layers` and `subs` are the attribute layers from `p` and the submeshes
/// after them.
pub open spec fn layers_and_submeshes_at(
    b: Seq<u8>,
    p: int,
    verts: u32,
    nl: nat,
    ns: nat,
    layers: Seq<XACVertexAttributeLayer>,
    subs: Seq<XACSubMesh>,
) -> bool {
    &&& list_at::<XACVertexAttributeLayer>(b, p, verts, nl, layers)
    &&& list_at::<XACSubMesh>(
        b,
        list_end::<XACVertexAttributeLayer>(b, p, verts, nl)->0,
        0,
        ns,
        subs,
    )
}

fn read_layers_and_submeshes(b: &[u8], p: usize, verts: u32, nl: u32, ns: u32) -> (r: Option<
    ((Vec<XACVertexAttributeLayer>, Vec<XACSubMesh>), usize),
>)
    ensures
        r is Some <==> layers_and_submeshes_end(b@, p as int, verts, nl as nat, ns as nat) is Some,
        r is Some ==> {
            let (t, q) = r->0;
            &&& q == layers_and_submeshes_end(b@, p as int, verts, nl as nat, ns as nat)->0
            &&& layers_and_submeshes_at(b@, p as int, verts, nl as nat, ns as nat, t.0@, t.1@)
        },
{
    let (layers, q) = read_list::<XACVertexAttributeLayer>(b, p, verts, nl)?;
    let (subs, q) = read_list::<XACSubMesh>(b, q, 0, ns)?;
    Some(((layers, subs), q))
}

/// A mesh, first version: counts and flags, then its attribute layers (each
/// holding `total_verts` values) and its submeshes.
pub struct XACMesh {
    pub node_index: u32,
    pub num_org_verts: u32,
    pub total_verts: u32,
    pub total_indices: u32,
    pub num_sub_meshes: u32,
    pub num_layers: u32,
    pub is_collision_mesh: u8,
    pub padding: [u8; 3],
    pub vertex_attribute_layer: Vec<XACVertexAttributeLayer>,
    pub sub_meshes: Vec<XACSubMesh>,
}

impl Record for XACMesh {
    open spec fn end(b: Seq<u8>, p: int, ctx: u32) -> Option<int> {
        if fits(b, p, 28) {
            layers_and_submeshes_end(
                b,
                p + 28,
                le32(b, p + 8) as u32,
                le32(b, p + 20) as nat,
                le32(b, p + 16) as nat,
            )
        } else {
            None
        }
    }

    open spec fn at(b: Seq<u8>, p: int, ctx: u32, v: XACMesh) -> bool {
        &&& v.node_index == le32(b, p)
        &&& v.num_org_verts == le32(b, p + 4)
        &&& v.total_verts == le32(b, p + 8)
        &&& v.total_indices == le32(b, p + 12)
        &&& v.num_sub_meshes == le32(b, p + 16)
        &&& v.num_layers == le32(b, p + 20)
        &&& v.is_collision_mesh == b[p + 24]
        &&& v.padding@ == b.subrange(p + 25, p + 28)
        &&& layers_and_submeshes_at(
            b,
            p + 28,
            le32(b, p + 8) as u32,
            le32(b, p + 20) as nat,
            le32(b, p + 16) as nat,
            v.vertex_attribute_layer@,
            v.sub_meshes@,
        )
    }

    fn read(b: &[u8], p: usize, ctx: u32) -> (r: Option<(XACMesh, usize)>) {
        let (node_index, q) = take_u32(b, p)?;
        let (num_org_verts, q) = take_u32(b, q)?;
        let (total_verts, q) = take_u32(b, q)?;
        let (total_indices, q) = take_u32(b, q)?;
        let (num_sub_meshes, q) = take_u32(b, q)?;
        let (num_layers, q) = take_u32(b, q)?;
        let (is_collision_mesh, q) = take_u8(b, q)?;
        let (padding, q) = take_arr3(b, q)?;
        let ((vertex_attribute_layer, sub_meshes), q) = read_layers_and_submeshes(
            b,
            q,
            total_verts,
            num_layers,
            num_sub_meshes,
        )?;
        Some((XACMesh {
            node_index,
            num_org_verts,
            total_verts,
            total_indices,
            num_sub_meshes,
            num_layers,
            is_collision_mesh,
            padding,
            vertex_attribute_layer,
            sub_meshes,
        }, q))
    }
}

/// A mesh, second version: as the first, with a level of detail.
pub struct XACMesh2 {
    pub node_index: u32,
    pub lod: u32,
    pub num_org_verts: u32,
    pub total_verts: u32,
    pub total_indices: u32,
    pub num_sub_meshes: u32,
    pub num_layers: u32,
    pub is_collision_mesh: u8,
    pub padding: [u8; 3],
    pub vertex_attribute_layer: Vec<XACVertexAttributeLayer>,
    pub sub_meshes: Vec<XACSubMesh>,
}

impl Record for XACMesh2 {
    open spec fn end(b: Seq<u8>, p: int, ctx: u32) -> Option<int> {
        if fits(b, p, 32) {
            layers_and_submeshes_end(
                b,
                p + 32,
                le32(b, p + 12) as u32,
                le32(b, p + 24) as nat,
                le32(b, p + 20) as nat,
            )
        } else {
            None
        }
    }

    open spec fn at(b: Seq<u8>, p: int, ctx: u32, v: XACMesh2) -> bool {
        &&& v.node_index == le32(b, p)
        &&& v.lod == le32(b, p + 4)
        &&& v.num_org_verts == le32(b, p + 8)
        &&& v.total_verts == le32(b, p + 12)
        &&& v.total_indices == le32(b, p + 16)
        &&& v.num_sub_meshes == le32(b, p + 20)
        &&& v.num_layers == le32(b, p + 24)
        &&& v.is_collision_mesh == b[p + 28]
        &&& v.padding@ == b.subrange(p + 29, p + 32)
        &&& layers_and_submeshes_at(
            b,
            p + 32,
            le32(b, p + 12) as u32,
            le32(b, p + 24) as nat,
            le32(b, p + 20) as nat,
            v.vertex_attribute_layer@,
            v.sub_meshes@,
        )
    }

    fn read(b: &[u8], p: usize, ctx: u32) -> (r: Option<(XACMesh2, usize)>) {
        let (node_index, q) = take_u32(b, p)?;
        let (lod, q) = take_u32(b, q)?;
        let (num_org_verts, q) = take_u32(b, q)?;
        let (total_verts, q) = take_u32(b, q)?;
        let (total_indices, q) = take_u32(b, q)?;
        let (num_sub_meshes, q) = take_u32(b, q)?;
        let (num_layers, q) = take_u32(b, q)?;
        let (is_collision_mesh, q) = take_u8(b, q)?;
        let (padding, q) = take_arr3(b, q)?;
        let ((vertex_attribute_layer, sub_meshes), q) = read_layers_and_submeshes(
            b,
            q,
            total_verts,
            num_layers,
            num_sub_meshes,
        )?;
        Some((XACMesh2 {
            node_index,
            lod,
            num_org_verts,
            total_verts,
            total_indices,
            num_sub_meshes,
            num_layers,
            is_collision_mesh,
            padding,
            vertex_attribute_layer,
            sub_meshes,
        }, q))
    }
}

// ------------------------------------------------------------------ limits and morphs

/// Limits on a node's transform: six vectors of minimums and maximums,
/// nine flags that switch them on, and the node.
pub struct XACLimit {
    pub translation_min: FileVector3,
    pub translation_max: FileVector3,
    pub rotation_min: FileVector3,
    pub rotation_max: FileVector3,
    pub scale_min: FileVector3,
    pub scale_max: FileVector3,
    pub limit_flags: [u8; 9],
    pub node_number: u32,
}

impl Record for XACLimit {
    open spec fn end(b: Seq<u8>, p: int, ctx: u32) -> Option<int> {
        if fits(b, p, 85) { Some(p + 85) } else { None }
    }

    open spec fn at(b: Seq<u8>, p: int, ctx: u32, v: XACLimit) -> bool {
        &&& FileVector3::at(b, p, 0, v.translation_min)
        &&& FileVector3::at(b, p + 12, 0, v.translation_max)
        &&& FileVector3::at(b, p + 24, 0, v.rotation_min)
        &&& FileVector3::at(b, p + 36, 0, v.rotation_max)
        &&& FileVector3::at(b, p + 48, 0, v.scale_min)
        &&& FileVector3::at(b, p + 60, 0, v.scale_max)
        &&& v.limit_flags@ == b.subrange(p + 72, p + 81)
        &&& v.node_number == le32(b, p + 81)
    }

    fn read(b: &[u8], p: usize, ctx: u32) -> (r: Option<(XACLimit, usize)>) {
        let (translation_min, q) = FileVector3::read(b, p, 0)?;
        let (translation_max, q) = FileVector3::read(b, q, 0)?;
        let (rotation_min, q) = FileVector3::read(b, q, 0)?;
        let (rotation_max, q) = FileVector3::read(b, q, 0)?;
        let (scale_min, q) = FileVector3::read(b, q, 0)?;
        let (scale_max, q) = FileVector3::read(b, q, 0)?;
        let (limit_flags, q) = take_arr9(b, q)?;
        let (node_number, q) = take_u32(b, q)?;
        Some((XACLimit {
            translation_min,
            translation_max,
            rotation_min,
            rotation_max,
            scale_min,
            scale_max,
            limit_flags,
            node_number,
        }, q))
    }
}

/// Where the four runs of `n` deltas from `p` end: positions, normals,
/// tangents, vertex numbers.
pub open spec fn deltas_end(b: Seq<u8>, p: int, n: nat) -> Option<int> {
    match list_end::<File16BitVector3>(b, p, 0, n) {
        None => None,
        Some(q1) => match list_end::<File8BitVector3>(b, q1, 0, n) {
            None => None,
            Some(q2) => match list_end::<File8BitVector3>(b, q2, 0, n) {
                None => None,
                Some(q3) => if fits(b, q3, 4 * n as int) {
                    Some(q3 + 4 * n)
                } else {
                    None
                },
            },
        },
    }
}

/// The deltas that a morph target applies to one node's mesh; `min_value`
/// and `max_value` (the range of the compressed positions) hold the bits of
/// 32-bit floats.
pub struct XACPMorphTargetMeshDeltas {
    pub node_index: u32,
    pub min_value: u32,
    pub max_value: u32,
    pub num_vertices: u32,
    pub delta_position_values: Vec<File16BitVector3>,
    pub delta_normal_values: Vec<File8BitVector3>,
    pub delta_tangent_values: Vec<File8BitVector3>,
    pub vertex_numbers: Vec<u32>,
}

impl Record for XACPMorphTargetMeshDeltas {
    open spec fn end(b: Seq<u8>, p: int, ctx: u32) -> Option<int> {
        if fits(b, p, 16) { deltas_end(b, p + 16, le32(b, p + 12) as nat) } else { None }
    }

    open spec fn at(b: Seq<u8>, p: int, ctx: u32, v: XACPMorphTargetMeshDeltas) -> bool {
        let n = le32(b, p + 12) as nat;
        let q1 = list_end::<File16BitVector3>(b, p + 16, 0, n)->0;
        let q2 = list_end::<File8BitVector3>(b, q1, 0, n)->0;
        let q3 = list_end::<File8BitVector3>(b, q2, 0, n)->0;
        &&& v.node_index == le32(b, p)
        &&& v.min_value == le32(b, p + 4)
        &&& v.max_value == le32(b, p + 8)
        &&& v.num_vertices == n
        &&& list_at::<File16BitVector3>(b, p + 16, 0, n, v.delta_position_values@)
        &&& list_at::<File8BitVector3>(b, q1, 0, n, v.delta_normal_values@)
        &&& list_at::<File8BitVector3>(b, q2, 0, n, v.delta_tangent_values@)
        &&& v.vertex_numbers@ == u32s_at(b, q3, n)
    }

    fn read(b: &[u8], p: usize, ctx: u32) -> (r: Option<(XACPMorphTargetMeshDeltas, usize)>) {
        let (node_index, q) = take_u32(b, p)?;
        let (min_value, q) = take_u32(b, q)?;
        let (max_value, q) = take_u32(b, q)?;
        let (num_vertices, q) = take_u32(b, q)?;
        let (delta_position_values, q) = read_list::<File16BitVector3>(b, q, 0, num_vertices)?;
        let (delta_normal_values, q) = read_list::<File8BitVector3>(b, q, 0, num_vertices)?;
        let (delta_tangent_values, q) = read_list::<File8BitVector3>(b, q, 0, num_vertices)?;
        let (vertex_numbers, q) = take_u32s(b, q, num_vertices)?;
        Some((XACPMorphTargetMeshDeltas {
            node_index,
            min_value,
            max_value,
            num_vertices,
            delta_position_values,
            delta_normal_values,
            delta_tangent_values,
            vertex_numbers,
        }, q))
    }
}

/// The transform that a morph target applies to one node.
pub struct XACPMorphTargetTransform {
    pub node_index: u32,
    pub rotation: FileQuaternion,
    pub scale_rotation: FileQuaternion,
    pub position: FileVector3,
    pub scale: FileVector3,
}

impl Record for XACPMorphTargetTransform {
    open spec fn end(b: Seq<u8>, p: int, ctx: u32) -> Option<int> {
        if fits(b, p, 60) { Some(p + 60) } else { None }
    }

    open spec fn at(b: Seq<u8>, p: int, ctx: u32, v: XACPMorphTargetTransform) -> bool {
        &&& v.node_index == le32(b, p)
        &&& FileQuaternion::at(b, p + 4, 0, v.rotation)
        &&& FileQuaternion::at(b, p + 20, 0, v.scale_rotation)
        &&& FileVector3::at(b, p + 36, 0, v.position)
        &&& FileVector3::at(b, p + 48, 0, v.scale)
    }

    fn read(b: &[u8], p: usize, ctx: u32) -> (r: Option<(XACPMorphTargetTransform, usize)>) {
        let (node_index, q) = take_u32(b, p)?;
        let (rotation, q) = FileQuaternion::read(b, q, 0)?;
        let (scale_rotation, q) = FileQuaternion::read(b, q, 0)?;
        let (position, q) = FileVector3::read(b, q, 0)?;
        let (scale, q) = FileVector3::read(b, q, 0)?;
        Some((XACPMorphTargetTransform { node_index, rotation, scale_rotation, position, scale }, q))
    }
}

/// A progressive morph target: its range (bits of 32-bit floats), level of
/// detail, counts, phoneme sets and name, then its mesh deltas and its
/// transforms.
pub struct XACPMorphTarget {
    pub range_min: u32,
    pub range_max: u32,
    pub lod: u32,
    pub num_mesh_deform_deltas: u32,
    pub num_transformations: u32,
    pub phoneme_sets: u32,
    pub name: String,
    pub morph_target_mesh_deltas: Vec<XACPMorphTargetMeshDeltas>,
    pub morph_target_transform: Vec<XACPMorphTargetTransform>,
}

impl Record for XACPMorphTarget {
    open spec fn end(b: Seq<u8>, p: int, ctx: u32) -> Option<int> {
        if !fits(b, p, 24) {
            None
        } else {
            match lstr_end(b, p + 24) {
                None => None,
                Some(q1) => match list_end::<XACPMorphTargetMeshDeltas>(
                    b,
                    q1,
                    0,
                    le32(b, p + 12) as nat,
                ) {
                    None => None,
                    Some(q2) => list_end::<XACPMorphTargetTransform>(
                        b,
                        q2,
                        0,
                        le32(b, p + 16) as nat,
                    ),
                },
            }
        }
    }

    open spec fn at(b: Seq<u8>, p: int, ctx: u32, v: XACPMorphTarget) -> bool {
        let q1 = lstr_end(b, p + 24)->0;
        let q2 = list_end::<XACPMorphTargetMeshDeltas>(b, q1, 0, le32(b, p + 12) as nat)->0;
        &&& v.range_min == le32(b, p)
        &&& v.range_max == le32(b, p + 4)
        &&& v.lod == le32(b, p + 8)
        &&& v.num_mesh_deform_deltas == le32(b, p + 12)
        &&& v.num_transformations == le32(b, p + 16)
        &&& v.phoneme_sets == le32(b, p + 20)
        &&& v.name@ == lstr_at(b, p + 24)
        &&& list_at::<XACPMorphTargetMeshDeltas>(
            b,
            q1,
            0,
            le32(b, p + 12) as nat,
            v.morph_target_mesh_deltas@,
        )
        &&& list_at::<XACPMorphTargetTransform>(
            b,
            q2,
            0,
            le32(b, p + 16) as nat,
            v.morph_target_transform@,
        )
    }

    fn read(b: &[u8], p: usize, ctx: u32) -> (r: Option<(XACPMorphTarget, usize)>) {
        let (range_min, q) = take_u32(b, p)?;
        let (range_max, q) = take_u32(b, q)?;
        let (lod, q) = take_u32(b, q)?;
        let (num_mesh_deform_deltas, q) = take_u32(b, q)?;
        let (num_transformations, q) = take_u32(b, q)?;
        let (phoneme_sets, q) = take_u32(b, q)?;
        let (name, q) = take_lstr(b, q)?;
        let (morph_target_mesh_deltas, q) = read_list::<XACPMorphTargetMeshDeltas>(
            b,
            q,
            0,
            num_mesh_deform_deltas,
        )?;
        let (morph_target_transform, q) = read_list::<XACPMorphTargetTransform>(
            b,
            q,
            0,
            num_transformations,
        )?;
        Some((XACPMorphTarget {
            range_min,
            range_max,
            lod,
            num_mesh_deform_deltas,
            num_transformations,
            phoneme_sets,
            name,
            morph_target_mesh_deltas,
            morph_target_transform,
        }, q))
    }
}

/// A set of morph targets as this format declares it: a count, a level of
/// detail, then that many sets again, one after the other.
pub struct XACPMorphTargets {
    pub num_morph_targets: u32,
    pub lod: u32,
    pub morph_targets: Vec<XACPMorphTargets>,
}

/// Where the set at `p` ends, if the data holds it.
pub open spec fn targets_end(b: Seq<u8>, p: int) -> Option<int>
    decreases b.len() - p, 0int,
{
    if fits(b, p, 8) {
        targets_run_end(b, p + 8, le32(b, p) as nat)
    } else {
        None
    }
}

/// Where `n` sets from `p` end, if the data holds them.
pub open spec fn targets_run_end(b: Seq<u8>, p: int, n: nat) -> Option<int>
    decreases b.len() - p, n + 1,
{
    if p > b.len() {
        None
    } else if n == 0 {
        Some(p)
    } else {
        match targets_run_end(b, p, (n - 1) as nat) {
            Some(q) => if p <= q <= b.len() {
                targets_end(b, q)
            } else {
                None
            },
            None => None,
        }
    }
}

/// A set that the data holds ends after its eight fixed bytes and within
/// the data; a run that it holds ends within the data, not before it starts.
pub proof fn lemma_targets_bounds(b: Seq<u8>, p: int, n: nat)
    ensures
        targets_end(b, p) matches Some(q) ==> p + 8 <= q <= b.len(),
        targets_run_end(b, p, n) matches Some(q) ==> p <= q <= b.len(),
    decreases b.len() - p, n + 1,
{
    if fits(b, p, 8) {
        lemma_targets_bounds(b, p + 8, le32(b, p) as nat);
    }
    if p <= b.len() && n > 0 {
        lemma_targets_bounds(b, p, (n - 1) as nat);
        if let Some(q) = targets_run_end(b, p, (n - 1) as nat) {
            if p <= q <= b.len() {
                lemma_targets_bounds(b, q, 0);
            }
        }
    }
}

/// `v` is the set read at `p`.
pub open spec fn targets_at(b: Seq<u8>, p: int, v: XACPMorphTargets) -> bool
    decreases v,
{
    &&& v.num_morph_targets == le32(b, p)
    &&& v.lod == le32(b, p + 4)
    &&& v.morph_targets@.len() == le32(b, p)
    &&& forall|i: int|
        0 <= i < v.morph_targets@.len() ==> targets_at(
            b,
            targets_run_end(b, p + 8, i as nat)->0,
            #[trigger] v.morph_targets@[i],
        )
}

fn read_targets(b: &[u8], p: usize) -> (r: Option<(XACPMorphTargets, usize)>)
    ensures
        r is Some <==> targets_end(b@, p as int) is Some,
        r is Some ==> (r->0).1 == targets_end(b@, p as int)->0 && targets_at(
            b@,
            p as int,
            (r->0).0,
        ),
    decreases b@.len() - p,
{
    let (num_morph_targets, q0) = take_u32(b, p)?;
    let (lod, q0) = take_u32(b, q0)?;
    let mut morph_targets: Vec<XACPMorphTargets> = Vec::new();
    let mut q: usize = q0;
    let mut i: u32 = 0;
    while i < num_morph_targets
        invariant
            q0 == p + 8,
            q0 <= b@.len(),
            i <= num_morph_targets,
            num_morph_targets == le32(b@, p as int),
            targets_run_end(b@, q0 as int, i as nat) == Some(q as int),
            q0 <= q <= b@.len(),
            morph_targets@.len() == i,
            forall|k: int|
                0 <= k < i ==> targets_at(
                    b@,
                    targets_run_end(b@, q0 as int, k as nat)->0,
                    #[trigger] morph_targets@[k],
                ),
        decreases num_morph_targets - i,
    {
        proof {
            lemma_targets_bounds(b@, q as int, 0);
        }
        match read_targets(b, q) {
            Some((t, q2)) => {
                assert(targets_run_end(b@, q0 as int, (i + 1) as nat) == Some(q2 as int));
                morph_targets.push(t);
                q = q2;
                i = i + 1;
            },
            None => {
                assert(targets_run_end(b@, q0 as int, (i + 1) as nat) is None);
                proof {
                    lemma_targets_run_none(b@, q0 as int, (i + 1) as nat, num_morph_targets as nat);
                }
                return None;
            },
        }
    }
    Some((XACPMorphTargets { num_morph_targets, lod, morph_targets }, q))
}

/// Once a run of sets fails to fit, every longer run fails too.
pub proof fn lemma_targets_run_none(b: Seq<u8>, p: int, i: nat, n: nat)
    requires
        i <= n,
        p <= b.len(),
        targets_run_end(b, p, i) is None,
    ensures
        targets_run_end(b, p, n) is None,
    decreases n - i,
{
    if i < n {
        lemma_targets_run_none(b, p, (i + 1) as nat, n);
    }
}

impl Record for XACPMorphTargets {
    open spec fn end(b: Seq<u8>, p: int, ctx: u32) -> Option<int> {
        targets_end(b, p)
    }

    open spec fn at(b: Seq<u8>, p: int, ctx: u32, v: XACPMorphTargets) -> bool {
        targets_at(b, p, v)
    }

    fn read(b: &[u8], p: usize, ctx: u32) -> (r: Option<(XACPMorphTargets, usize)>) {
        read_targets(b, p)
    }
}

// ------------------------------------------------------------------ effect materials

/// An integer parameter of an effect material (negative values allowed).
pub struct XACFXIntParameter {
    pub value: i32,
    pub name: String,
}

impl Record for XACFXIntParameter {
    open spec fn end(b: Seq<u8>, p: int, ctx: u32) -> Option<int> {
        fixed_and_text_end(b, p, 4)
    }

    open spec fn at(b: Seq<u8>, p: int, ctx: u32, v: XACFXIntParameter) -> bool {
        &&& v.value == signed32(le32(b, p))
        &&& v.name@ == lstr_at(b, p + 4)
    }

    fn read(b: &[u8], p: usize, ctx: u32) -> (r: Option<(XACFXIntParameter, usize)>) {
        let (value, q) = take_i32(b, p)?;
        let (name, q) = take_lstr(b, q)?;
        Some((XACFXIntParameter { value, name }, q))
    }
}

/// A number parameter of an effect material; `value` holds the bits of a
/// 32-bit float.
pub struct XACFXFloatParameter {
    pub value: u32,
    pub name: String,
}

impl Record for XACFXFloatParameter {
    open spec fn end(b: Seq<u8>, p: int, ctx: u32) -> Option<int> {
        fixed_and_text_end(b, p, 4)
    }

    open spec fn at(b: Seq<u8>, p: int, ctx: u32, v: XACFXFloatParameter) -> bool {
        &&& v.value == le32(b, p)
        &&& v.name@ == lstr_at(b, p + 4)
    }

    fn read(b: &[u8], p: usize, ctx: u32) -> (r: Option<(XACFXFloatParameter, usize)>) {
        let (value, q) = take_u32(b, p)?;
        let (name, q) = take_lstr(b, q)?;
        Some((XACFXFloatParameter { value, name }, q))
    }
}

/// A color parameter of an effect material.
pub struct XACFXColorParameter {
    pub value: FileColor,
    pub name: String,
}

impl Record for XACFXColorParameter {
    open spec fn end(b: Seq<u8>, p: int, ctx: u32) -> Option<int> {
        fixed_and_text_end(b, p, 16)
    }

    open spec fn at(b: Seq<u8>, p: int, ctx: u32, v: XACFXColorParameter) -> bool {
        &&& FileColor::at(b, p, 0, v.value)
        &&& v.name@ == lstr_at(b, p + 16)
    }

    fn read(b: &[u8], p: usize, ctx: u32) -> (r: Option<(XACFXColorParameter, usize)>) {
        let (value, q) = FileColor::read(b, p, 0)?;
        let (name, q) = take_lstr(b, q)?;
        Some((XACFXColorParameter { value, name }, q))
    }
}

/// A vector parameter of an effect material.
pub struct XACFXVector3Parameter {
    pub value: FileVector3,
    pub name: String,
}

impl Record for XACFXVector3Parameter {
    open spec fn end(b: Seq<u8>, p: int, ctx: u32) -> Option<int> {
        fixed_and_text_end(b, p, 12)
    }

    open spec fn at(b: Seq<u8>, p: int, ctx: u32, v: XACFXVector3Parameter) -> bool {
        &&& FileVector3::at(b, p, 0, v.value)
        &&& v.name@ == lstr_at(b, p + 12)
    }

    fn read(b: &[u8], p: usize, ctx: u32) -> (r: Option<(XACFXVector3Parameter, usize)>) {
        let (value, q) = FileVector3::read(b, p, 0)?;
        let (name, q) = take_lstr(b, q)?;
        Some((XACFXVector3Parameter { value, name }, q))
    }
}

/// A yes/no parameter of an effect material (0 = no, 1 = yes).
pub struct XACFXBoolParameter {
    pub value: u8,
    pub name: String,
}

impl Record for XACFXBoolParameter {
    open spec fn end(b: Seq<u8>, p: int, ctx: u32) -> Option<int> {
        fixed_and_text_end(b, p, 1)
    }

    open spec fn at(b: Seq<u8>, p: int, ctx: u32, v: XACFXBoolParameter) -> bool {
        &&& v.value == b[p]
        &&& v.name@ == lstr_at(b, p + 1)
    }

    fn read(b: &[u8], p: usize, ctx: u32) -> (r: Option<(XACFXBoolParameter, usize)>) {
        let (value, q) = take_u8(b, p)?;
        let (name, q) = take_lstr(b, q)?;
        Some((XACFXBoolParameter { value, name }, q))
    }
}

/// A texture parameter of an effect material: the parameter's name and the
/// texture's.
pub struct XACFXBitmapParameter {
    pub name: String,
    pub value_name: String,
}

impl Record for XACFXBitmapParameter {
    open spec fn end(b: Seq<u8>, p: int, ctx: u32) -> Option<int> {
        match lstr_end(b, p) {
            Some(q) => lstr_end(b, q),
            None => None,
        }
    }

    open spec fn at(b: Seq<u8>, p: int, ctx: u32, v: XACFXBitmapParameter) -> bool {
        &&& v.name@ == lstr_at(b, p)
        &&& v.value_name@ == lstr_at(b, lstr_end(b, p)->0)
    }

    fn read(b: &[u8], p: usize, ctx: u32) -> (r: Option<(XACFXBitmapParameter, usize)>) {
        let (name, q) = take_lstr(b, p)?;
        let (value_name, q) = take_lstr(b, q)?;
        Some((XACFXBitmapParameter { name, value_name }, q))
    }
}

/// The three texts of an effect material at `p`: its name, its effect file
/// and its shader technique.
pub open spec fn three_texts_at(b: Seq<u8>, p: int, v0: String, v1: String, v2: String) -> bool {
    &&& v0@ == lstr_at(b, str_pos(b, p, 0))
    &&& v1@ == lstr_at(b, str_pos(b, p, 1))
    &&& v2@ == lstr_at(b, str_pos(b, p, 2))
}

/// An effect material, first version: counts, three texts, then (each only
/// for a count above zero) its integer, number, color and texture
/// parameters.
pub struct XACFXMaterial {
    pub num_int_params: u32,
    pub num_float_params: u32,
    pub num_color_params: u32,
    pub num_bitmap_params: u32,
    pub name: String,
    pub effect_file: String,
    pub shader_technique: String,
    pub xac_fx_int_parameter: Option<Vec<XACFXIntParameter>>,
    pub xac_fx_float_parameter: Option<Vec<XACFXFloatParameter>>,
    pub xac_fx_color_parameter: Option<Vec<XACFXColorParameter>>,
    pub xac_fx_bitmap_parameter: Option<Vec<XACFXBitmapParameter>>,
}

/// Where the four parameter runs of a first-version effect material end,
/// from `p`, with counts `n`.
pub open spec fn fx_params4_end(b: Seq<u8>, p: int, n: (nat, nat, nat, nat)) -> Option<int> {
    match opt_list_end::<XACFXIntParameter>(b, p, n.0) {
        None => None,
        Some(q1) => match opt_list_end::<XACFXFloatParameter>(b, q1, n.1) {
            None => None,
            Some(q2) => match opt_list_end::<XACFXColorParameter>(b, q2, n.2) {
                None => None,
                Some(q3) => opt_list_end::<XACFXBitmapParameter>(b, q3, n.3),
            },
        },
    }
}

impl Record for XACFXMaterial {
    open spec fn end(b: Seq<u8>, p: int, ctx: u32) -> Option<int> {
        if !fits(b, p, 16) {
            None
        } else {
            match strs_end(b, p + 16, 3) {
                None => None,
                Some(q) => fx_params4_end(
                    b,
                    q,
                    (
                        le32(b, p) as nat,
                        le32(b, p + 4) as nat,
                        le32(b, p + 8) as nat,
                        le32(b, p + 12) as nat,
                    ),
                ),
            }
        }
    }

    open spec fn at(b: Seq<u8>, p: int, ctx: u32, v: XACFXMaterial) -> bool {
        let q1 = strs_end(b, p + 16, 3)->0;
        let q2 = opt_list_end::<XACFXIntParameter>(b, q1, le32(b, p) as nat)->0;
        let q3 = opt_list_end::<XACFXFloatParameter>(b, q2, le32(b, p + 4) as nat)->0;
        let q4 = opt_list_end::<XACFXColorParameter>(b, q3, le32(b, p + 8) as nat)->0;
        &&& v.num_int_params == le32(b, p)
        &&& v.num_float_params == le32(b, p + 4)
        &&& v.num_color_params == le32(b, p + 8)
        &&& v.num_bitmap_params == le32(b, p + 12)
        &&& three_texts_at(b, p + 16, v.name, v.effect_file, v.shader_technique)
        &&& opt_list_at::<XACFXIntParameter>(b, q1, le32(b, p) as nat, v.xac_fx_int_parameter)
        &&& opt_list_at::<XACFXFloatParameter>(b, q2, le32(b, p + 4) as nat, v.xac_fx_float_parameter)
        &&& opt_list_at::<XACFXColorParameter>(b, q3, le32(b, p + 8) as nat, v.xac_fx_color_parameter)
        &&& opt_list_at::<XACFXBitmapParameter>(
            b,
            q4,
            le32(b, p + 12) as nat,
            v.xac_fx_bitmap_parameter,
        )
    }

    fn read(b: &[u8], p: usize, ctx: u32) -> (r: Option<(XACFXMaterial, usize)>) {
        let (num_int_params, q) = take_u32(b, p)?;
        let (num_float_params, q) = take_u32(b, q)?;
        let (num_color_params, q) = take_u32(b, q)?;
        let (num_bitmap_params, q) = take_u32(b, q)?;
        let ((name, effect_file, shader_technique), q) = read_strs3(b, q)?;
        let (xac_fx_int_parameter, q) = read_opt_list::<XACFXIntParameter>(b, q, num_int_params)?;
        let (xac_fx_float_parameter, q) = read_opt_list::<XACFXFloatParameter>(
            b,
            q,
            num_float_params,
        )?;
        let (xac_fx_color_parameter, q) = read_opt_list::<XACFXColorParameter>(
            b,
            q,
            num_color_params,
        )?;
        let (xac_fx_bitmap_parameter, q) = read_opt_list::<XACFXBitmapParameter>(
            b,
            q,
            num_bitmap_params,
        )?;
        Some((XACFXMaterial {
            num_int_params,
            num_float_params,
            num_color_params,
            num_bitmap_params,
            name,
            effect_file,
            shader_technique,
            xac_fx_int_parameter,
            xac_fx_float_parameter,
            xac_fx_color_parameter,
            xac_fx_bitmap_parameter,
        }, q))
    }
}

/// The six parameter runs of a later effect material version.
pub struct FxParams6 {
    pub ints: Option<Vec<XACFXIntParameter>>,
    pub floats: Option<Vec<XACFXFloatParameter>>,
    pub colors: Option<Vec<XACFXColorParameter>>,
    pub bools: Option<Vec<XACFXBoolParameter>>,
    pub vectors: Option<Vec<XACFXVector3Parameter>>,
    pub bitmaps: Option<Vec<XACFXBitmapParameter>>,
}

/// Where the six parameter runs of a later effect material version end,
/// from `p`, with counts `n` (integers, numbers, colors, yes/no, vectors,
/// textures).
pub open spec fn fx_params6_end(
    b: Seq<u8>,
    p: int,
    n: (nat, nat, nat, nat, nat, nat),
) -> Option<int> {
    match opt_list_end::<XACFXIntParameter>(b, p, n.0) {
        None => None,
        Some(q1) => match opt_list_end::<XACFXFloatParameter>(b, q1, n.1) {
            None => None,
            Some(q2) => match opt_list_end::<XACFXColorParameter>(b, q2, n.2) {
                None => None,
                Some(q3) => match opt_list_end::<XACFXBoolParameter>(b, q3, n.3) {
                    None => None,
                    Some(q4) => match opt_list_end::<XACFXVector3Parameter>(b, q4, n.4) {
                        None => None,
                        Some(q5) => opt_list_end::<XACFXBitmapParameter>(b, q5, n.5),
                    },
                },
            },
        },
    }
}

/// `v` holds the six parameter runs from `p` with counts `n`.
pub open spec fn fx_params6_at(
    b: Seq<u8>,
    p: int,
    n: (nat, nat, nat, nat, nat, nat),
    v: FxParams6,
) -> bool {
    let q1 = opt_list_end::<XACFXIntParameter>(b, p, n.0)->0;
    let q2 = opt_list_end::<XACFXFloatParameter>(b, q1, n.1)->0;
    let q3 = opt_list_end::<XACFXColorParameter>(b, q2, n.2)->0;
    let q4 = opt_list_end::<XACFXBoolParameter>(b, q3, n.3)->0;
    let q5 = opt_list_end::<XACFXVector3Parameter>(b, q4, n.4)->0;
    &&& opt_list_at::<XACFXIntParameter>(b, p, n.0, v.ints)
    &&& opt_list_at::<XACFXFloatParameter>(b, q1, n.1, v.floats)
    &&& opt_list_at::<XACFXColorParameter>(b, q2, n.2, v.colors)
    &&& opt_list_at::<XACFXBoolParameter>(b, q3, n.3, v.bools)
    &&& opt_list_at::<XACFXVector3Parameter>(b, q4, n.4, v.vectors)
    &&& opt_list_at::<XACFXBitmapParameter>(b, q5, n.5, v.bitmaps)
}

fn read_fx_params6(
    b: &[u8],
    p: usize,
    n: (u32, u32, u32, u32, u32, u32),
) -> (r: Option<(FxParams6, usize)>)
    ensures
        r is Some <==> fx_params6_end(
            b@,
            p as int,
            (n.0 as nat, n.1 as nat, n.2 as nat, n.3 as nat, n.4 as nat, n.5 as nat),
        ) is Some,
        r is Some ==> {
            let counts = (n.0 as nat, n.1 as nat, n.2 as nat, n.3 as nat, n.4 as nat, n.5 as nat);
            &&& (r->0).1 == fx_params6_end(b@, p as int, counts)->0
            &&& fx_params6_at(b@, p as int, counts, (r->0).0)
        },
{
    let (ints, q) = read_opt_list::<XACFXIntParameter>(b, p, n.0)?;
    let (floats, q) = read_opt_list::<XACFXFloatParameter>(b, q, n.1)?;
    let (colors, q) = read_opt_list::<XACFXColorParameter>(b, q, n.2)?;
    let (bools, q) = read_opt_list::<XACFXBoolParameter>(b, q, n.3)?;
    let (vectors, q) = read_opt_list::<XACFXVector3Parameter>(b, q, n.4)?;
    let (bitmaps, q) = read_opt_list::<XACFXBitmapParameter>(b, q, n.5)?;
    Some((FxParams6 { ints, floats, colors, bools, vectors, bitmaps }, q))
}

/// The six counts stored from `p` on.
pub open spec fn counts6(b: Seq<u8>, p: int) -> (nat, nat, nat, nat, nat, nat) {
    (
        le32(b, p) as nat,
        le32(b, p + 4) as nat,
        le32(b, p + 8) as nat,
        le32(b, p + 12) as nat,
        le32(b, p + 16) as nat,
        le32(b, p + 20) as nat,
    )
}

/// Where six counts at `p`, three texts and the six parameter runs end.
pub open spec fn fx6_end(b: Seq<u8>, p: int) -> Option<int> {
    if !fits(b, p, 24) {
        None
    } else {
        match strs_end(b, p + 24, 3) {
            None => None,
            Some(q) => fx_params6_end(b, q, counts6(b, p)),
        }
    }
}

/// An effect material, second version: six counts, three texts, then (each
/// only for a count above zero) its integer, number, color, yes/no, vector
/// and texture parameters.
pub struct XACFXMaterial2 {
    pub num_int_params: u32,
    pub num_float_params: u32,
    pub num_color_params: u32,
    pub num_bool_params: u32,
    pub num_vector3_params: u32,
    pub num_bitmap_params: u32,
    pub name: String,
    pub effect_file: String,
    pub shader_technique: String,
    pub xac_fx_int_parameter: Option<Vec<XACFXIntParameter>>,
    pub xac_fx_float_parameter: Option<Vec<XACFXFloatParameter>>,
    pub xac_fx_color_parameter: Option<Vec<XACFXColorParameter>>,
    pub xac_fx_bool_parameter: Option<Vec<XACFXBoolParameter>>,
    pub xac_fx_vector3_parameter: Option<Vec<XACFXVector3Parameter>>,
    pub xac_fx_bitmap_parameter: Option<Vec<XACFXBitmapParameter>>,
}

impl Record for XACFXMaterial2 {
    open spec fn end(b: Seq<u8>, p: int, ctx: u32) -> Option<int> {
        fx6_end(b, p)
    }

    open spec fn at(b: Seq<u8>, p: int, ctx: u32, v: XACFXMaterial2) -> bool {
        &&& v.num_int_params == le32(b, p)
        &&& v.num_float_params == le32(b, p + 4)
        &&& v.num_color_params == le32(b, p + 8)
        &&& v.num_bool_params == le32(b, p + 12)
        &&& v.num_vector3_params == le32(b, p + 16)
        &&& v.num_bitmap_params == le32(b, p + 20)
        &&& three_texts_at(b, p + 24, v.name, v.effect_file, v.shader_technique)
        &&& fx_params6_at(
            b,
            strs_end(b, p + 24, 3)->0,
            counts6(b, p),
            FxParams6 {
                ints: v.xac_fx_int_parameter,
                floats: v.xac_fx_float_parameter,
                colors: v.xac_fx_color_parameter,
                bools: v.xac_fx_bool_parameter,
                vectors: v.xac_fx_vector3_parameter,
                bitmaps: v.xac_fx_bitmap_parameter,
            },
        )
    }

    fn read(b: &[u8], p: usize, ctx: u32) -> (r: Option<(XACFXMaterial2, usize)>) {
        let (num_int_params, q) = take_u32(b, p)?;
        let (num_float_params, q) = take_u32(b, q)?;
        let (num_color_params, q) = take_u32(b, q)?;
        let (num_bool_params, q) = take_u32(b, q)?;
        let (num_vector3_params, q) = take_u32(b, q)?;
        let (num_bitmap_params, q) = take_u32(b, q)?;
        let ((name, effect_file, shader_technique), q) = read_strs3(b, q)?;
        let (params, q) = read_fx_params6(
            b,
            q,
            (
                num_int_params,
                num_float_params,
                num_color_params,
                num_bool_params,
                num_vector3_params,
                num_bitmap_params,
            ),
        )?;
        Some((XACFXMaterial2 {
            num_int_params,
            num_float_params,
            num_color_params,
            num_bool_params,
            num_vector3_params,
            num_bitmap_params,
            name,
            effect_file,
            shader_technique,
            xac_fx_int_parameter: params.ints,
            xac_fx_float_parameter: params.floats,
            xac_fx_color_parameter: params.colors,
            xac_fx_bool_parameter: params.bools,
            xac_fx_vector3_parameter: params.vectors,
            xac_fx_bitmap_parameter: params.bitmaps,
        }, q))
    }
}

/// An effect material, third version: as the second, after a level of
/// detail.
pub struct XACFXMaterial3 {
    pub lod: u32,
    pub num_int_params: u32,
    pub num_float_params: u32,
    pub num_color_params: u32,
    pub num_bool_params: u32,
    pub num_vector3_params: u32,
    pub num_bitmap_params: u32,
    pub name: String,
    pub effect_file: String,
    pub shader_technique: String,
    pub xac_fx_int_parameter: Option<Vec<XACFXIntParameter>>,
    pub xac_fx_float_parameter: Option<Vec<XACFXFloatParameter>>,
    pub xac_fx_color_parameter: Option<Vec<XACFXColorParameter>>,
    pub xac_fx_bool_parameter: Option<Vec<XACFXBoolParameter>>,
    pub xac_fx_vector3_parameter: Option<Vec<XACFXVector3Parameter>>,
    pub xac_fx_bitmap_parameter: Option<Vec<XACFXBitmapParameter>>,
}

impl Record for XACFXMaterial3 {
    open spec fn end(b: Seq<u8>, p: int, ctx: u32) -> Option<int> {
        if fits(b, p, 4) { fx6_end(b, p + 4) } else { None }
    }

    open spec fn at(b: Seq<u8>, p: int, ctx: u32, v: XACFXMaterial3) -> bool {
        &&& v.lod == le32(b, p)
        &&& v.num_int_params == le32(b, p + 4)
        &&& v.num_float_params == le32(b, p + 8)
        &&& v.num_color_params == le32(b, p + 12)
        &&& v.num_bool_params == le32(b, p + 16)
        &&& v.num_vector3_params == le32(b, p + 20)
        &&& v.num_bitmap_params == le32(b, p + 24)
        &&& three_texts_at(b, p + 28, v.name, v.effect_file, v.shader_technique)
        &&& fx_params6_at(
            b,
            strs_end(b, p + 28, 3)->0,
            counts6(b, p + 4),
            FxParams6 {
                ints: v.xac_fx_int_parameter,
                floats: v.xac_fx_float_parameter,
                colors: v.xac_fx_color_parameter,
                bools: v.xac_fx_bool_parameter,
                vectors: v.xac_fx_vector3_parameter,
                bitmaps: v.xac_fx_bitmap_parameter,
            },
        )
    }

    fn read(b: &[u8], p: usize, ctx: u32) -> (r: Option<(XACFXMaterial3, usize)>) {
        let (lod, q) = take_u32(b, p)?;
        let (num_int_params, q) = take_u32(b, q)?;
        let (num_float_params, q) = take_u32(b, q)?;
        let (num_color_params, q) = take_u32(b, q)?;
        let (num_bool_params, q) = take_u32(b, q)?;
        let (num_vector3_params, q) = take_u32(b, q)?;
        let (num_bitmap_params, q) = take_u32(b, q)?;
        let ((name, effect_file, shader_technique), q) = read_strs3(b, q)?;
        let (params, q) = read_fx_params6(
            b,
            q,
            (
                num_int_params,
                num_float_params,
                num_color_params,
                num_bool_params,
                num_vector3_params,
                num_bitmap_params,
            ),
        )?;
        Some((XACFXMaterial3 {
            lod,
            num_int_params,
            num_float_params,
            num_color_params,
            num_bool_params,
            num_vector3_params,
            num_bitmap_params,
            name,
            effect_file,
            shader_technique,
            xac_fx_int_parameter: params.ints,
            xac_fx_float_parameter: params.floats,
            xac_fx_color_parameter: params.colors,
            xac_fx_bool_parameter: params.bools,
            xac_fx_vector3_parameter: params.vectors,
            xac_fx_bitmap_parameter: params.bitmaps,
        }, q))
    }
}

// ------------------------------------------------------------------ groups and indices

/// A group of nodes: how many, whether it starts disabled, its name, then
/// the nodes' indices.
pub struct XACNodeGroup {
    pub num_nodes: u16,
    pub disabled_on_default: u8,
    pub name: String,
    pub data: Vec<u16>,
}

impl Record for XACNodeGroup {
    open spec fn end(b: Seq<u8>, p: int, ctx: u32) -> Option<int> {
        if !fits(b, p, 3) {
            None
        } else {
            match lstr_end(b, p + 3) {
                Some(q) => if fits(b, q, 2 * le16(b, p)) {
                    Some(q + 2 * le16(b, p))
                } else {
                    None
                },
                None => None,
            }
        }
    }

    open spec fn at(b: Seq<u8>, p: int, ctx: u32, v: XACNodeGroup) -> bool {
        &&& v.num_nodes == le16(b, p)
        &&& v.disabled_on_default == b[p + 2]
        &&& v.name@ == lstr_at(b, p + 3)
        &&& v.data@ == u16s_at(b, lstr_end(b, p + 3)->0, le16(b, p) as nat)
    }

    fn read(b: &[u8], p: usize, ctx: u32) -> (r: Option<(XACNodeGroup, usize)>) {
        let (num_nodes, q) = take_u16(b, p)?;
        let (disabled_on_default, q) = take_u8(b, q)?;
        let (name, q) = take_lstr(b, q)?;
        let (data, q) = take_u16s(b, q, num_nodes as u32)?;
        Some((XACNodeGroup { num_nodes, disabled_on_default, name, data }, q))
    }
}

/// All nodes: their number, the number of roots, then the nodes (fourth
/// version).
pub struct XACNodes {
    pub num_nodes: u32,
    pub num_root_nodes: u32,
    pub xac_node: Vec<XACNode4>,
}

impl Record for XACNodes {
    open spec fn end(b: Seq<u8>, p: int, ctx: u32) -> Option<int> {
        if fits(b, p, 8) {
            list_end::<XACNode4>(b, p + 8, 0, le32(b, p) as nat)
        } else {
            None
        }
    }

    open spec fn at(b: Seq<u8>, p: int, ctx: u32, v: XACNodes) -> bool {
        &&& v.num_nodes == le32(b, p)
        &&& v.num_root_nodes == le32(b, p + 4)
        &&& list_at::<XACNode4>(b, p + 8, 0, le32(b, p) as nat, v.xac_node@)
    }

    fn read(b: &[u8], p: usize, ctx: u32) -> (r: Option<(XACNodes, usize)>) {
        let (num_nodes, q) = take_u32(b, p)?;
        let (num_root_nodes, q) = take_u32(b, q)?;
        let (xac_node, q) = read_list::<XACNode4>(b, q, 0, num_nodes)?;
        Some((XACNodes { num_nodes, num_root_nodes, xac_node }, q))
    }
}

/// How many materials follow (the extra default one included), and of
/// which kinds.
pub struct XACMaterialInfo {
    pub num_total_materials: u32,
    pub num_standard_materials: u32,
    pub num_fx_materials: u32,
}

impl Record for XACMaterialInfo {
    open spec fn end(b: Seq<u8>, p: int, ctx: u32) -> Option<int> {
        if fits(b, p, 12) { Some(p + 12) } else { None }
    }

    open spec fn at(b: Seq<u8>, p: int, ctx: u32, v: XACMaterialInfo) -> bool {
        &&& v.num_total_materials == le32(b, p)
        &&& v.num_standard_materials == le32(b, p + 4)
        &&& v.num_fx_materials == le32(b, p + 8)
    }

    fn read(b: &[u8], p: usize, ctx: u32) -> (r: Option<(XACMaterialInfo, usize)>) {
        let (num_total_materials, q) = take_u32(b, p)?;
        let (num_standard_materials, q) = take_u32(b, q)?;
        let (num_fx_materials, q) = take_u32(b, q)?;
        Some((XACMaterialInfo { num_total_materials, num_standard_materials, num_fx_materials }, q))
    }
}

/// As `XACMaterialInfo`, after a level of detail.
pub struct XACMaterialInfo2 {
    pub lod: u32,
    pub num_total_materials: u32,
    pub num_standard_materials: u32,
    pub num_fx_materials: u32,
}

impl Record for XACMaterialInfo2 {
    open spec fn end(b: Seq<u8>, p: int, ctx: u32) -> Option<int> {
        if fits(b, p, 16) { Some(p + 16) } else { None }
    }

    open spec fn at(b: Seq<u8>, p: int, ctx: u32, v: XACMaterialInfo2) -> bool {
        &&& v.lod == le32(b, p)
        &&& v.num_total_materials == le32(b, p + 4)
        &&& v.num_standard_materials == le32(b, p + 8)
        &&& v.num_fx_materials == le32(b, p + 12)
    }

    fn read(b: &[u8], p: usize, ctx: u32) -> (r: Option<(XACMaterialInfo2, usize)>) {
        let (lod, q) = take_u32(b, p)?;
        let (num_total_materials, q) = take_u32(b, q)?;
        let (num_standard_materials, q) = take_u32(b, q)?;
        let (num_fx_materials, q) = take_u32(b, q)?;
        Some((XACMaterialInfo2 { lod, num_total_materials, num_standard_materials, num_fx_materials }, q))
    }
}

/// Where a 32-bit count at `p` and that many 16-bit indices end.
pub open spec fn counted_u16s_end(b: Seq<u8>, p: int) -> Option<int> {
    if fits(b, p, 4) && fits(b, p + 4, 2 * le32(b, p)) {
        Some(p + 4 + 2 * le32(b, p))
    } else {
        None
    }
}

/// The nodes whose motion each node takes (for mirroring).
pub struct XACNodeMotionSources {
    pub num_nodes: u32,
    pub node_indices: Vec<u16>,
}

impl Record for XACNodeMotionSources {
    open spec fn end(b: Seq<u8>, p: int, ctx: u32) -> Option<int> {
        counted_u16s_end(b, p)
    }

    open spec fn at(b: Seq<u8>, p: int, ctx: u32, v: XACNodeMotionSources) -> bool {
        &&& v.num_nodes == le32(b, p)
        &&& v.node_indices@ == u16s_at(b, p + 4, le32(b, p) as nat)
    }

    fn read(b: &[u8], p: usize, ctx: u32) -> (r: Option<(XACNodeMotionSources, usize)>) {
        let (num_nodes, q) = take_u32(b, p)?;
        let (node_indices, q) = take_u16s(b, q, num_nodes)?;
        Some((XACNodeMotionSources { num_nodes, node_indices }, q))
    }
}

/// The nodes that are attachments.
pub struct XACAttachmentNodes {
    pub num_nodes: u32,
    pub attachment_indices: Vec<u16>,
}

impl Record for XACAttachmentNodes {
    open spec fn end(b: Seq<u8>, p: int, ctx: u32) -> Option<int> {
        counted_u16s_end(b, p)
    }

    open spec fn at(b: Seq<u8>, p: int, ctx: u32, v: XACAttachmentNodes) -> bool {
        &&& v.num_nodes == le32(b, p)
        &&& v.attachment_indices@ == u16s_at(b, p + 4, le32(b, p) as nat)
    }

    fn read(b: &[u8], p: usize, ctx: u32) -> (r: Option<(XACAttachmentNodes, usize)>) {
        let (num_nodes, q) = take_u32(b, p)?;
        let (attachment_indices, q) = take_u16s(b, q, num_nodes)?;
        Some((XACAttachmentNodes { num_nodes, attachment_indices }, q))
    }
}

// ------------------------------------------------------------------ chunks

/// The record of one chunk, by kind and version.
pub enum XACChunkData {
    XACInfo(XACInfo),
    XACInfo2(XACInfo2),
    XACInfo3(XACInfo3),
    XACInfo4(XACInfo4),
    XACNode(XACNode),
    XACNode2(XACNode2),
    XACNode3(XACNode3),
    XACNode4(XACNode4),
    XACSkinningInfo(XACSkinningInfo),
    XACSkinningInfo2(XACSkinningInfo2),
    XACSkinningInfo3(XACSkinningInfo3),
    XACSkinningInfo4(XACSkinningInfo4),
    XACStandardMaterial(XACStandardMaterial),
    XACStandardMaterial2(XACStandardMaterial2),
    XACStandardMaterial3(XACStandardMaterial3),
    XACStandardMaterialLayer(XACStandardMaterialLayer),
    XACStandardMaterialLayer2(XACStandardMaterialLayer2),
    XACSubMesh(XACSubMesh),
    XACMesh(XACMesh),
    XACMesh2(XACMesh2),
    XACLimit(XACLimit),
    XACPMorphTarget(XACPMorphTarget),
    XACPMorphTargets(XACPMorphTargets),
    XACFXMaterial(XACFXMaterial),
    XACFXMaterial2(XACFXMaterial2),
    XACFXMaterial3(XACFXMaterial3),
    XACNodeGroup(XACNodeGroup),
    XACNodes(XACNodes),
    XACMaterialInfo(XACMaterialInfo),
    XACMaterialInfo2(XACMaterialInfo2),
    XACMeshLodLevel(XACMeshLodLevel),
    XACNodeMotionSources(XACNodeMotionSources),
    XACAttachmentNodes(XACAttachmentNodes),
}

/// The chunk kinds and versions that are read: nodes 1 to 4, meshes 1 and
/// 2, skinning 1 to 4, standard materials 1 to 3, material layers 1 and 2,
/// effect materials 1 to 3, info 1 to 4, material info 1 and 2, and limits,
/// level-of-detail models, morph targets, node groups, nodes, motion sources
/// and attachments in any version.
pub open spec fn chunk_supported(id: u32, ver: u32) -> bool {
    ||| id == 0 && 1 <= ver <= 4
    ||| id == 1 && 1 <= ver <= 2
    ||| id == 2 && 1 <= ver <= 4
    ||| id == 3 && 1 <= ver <= 3
    ||| id == 4 && 1 <= ver <= 2
    ||| id == 5 && 1 <= ver <= 3
    ||| id == 6
    ||| id == 7 && 1 <= ver <= 4
    ||| 8 <= id <= 12
    ||| id == 13 && 1 <= ver <= 2
    ||| id == 14
    ||| id == 15
}

/// Where the record of a supported chunk of kind `id` and version `ver`
/// ends in the chunk's bytes `d`, if they hold it.
pub open spec fn chunk_end(id: u32, ver: u32, d: Seq<u8>) -> Option<int> {
    if id == 0 {
        if ver == 1 {
            XACNode::end(d, 0, 0)
        } else if ver == 2 {
            XACNode2::end(d, 0, 0)
        } else if ver == 3 {
            XACNode3::end(d, 0, 0)
        } else if ver == 4 {
            XACNode4::end(d, 0, 0)
        } else {
            None
        }
    } else if id == 1 {
        if ver == 1 {
            XACMesh::end(d, 0, 0)
        } else if ver == 2 {
            XACMesh2::end(d, 0, 0)
        } else {
            None
        }
    } else if id == 2 {
        if ver == 1 {
            XACSkinningInfo::end(d, 0, 0)
        } else if ver == 2 {
            XACSkinningInfo2::end(d, 0, 0)
        } else if ver == 3 {
            XACSkinningInfo3::end(d, 0, 0)
        } else if ver == 4 {
            XACSkinningInfo4::end(d, 0, 0)
        } else {
            None
        }
    } else if id == 3 {
        if ver == 1 {
            XACStandardMaterial::end(d, 0, 0)
        } else if ver == 2 {
            XACStandardMaterial2::end(d, 0, 0)
        } else if ver == 3 {
            XACStandardMaterial3::end(d, 0, 0)
        } else {
            None
        }
    } else if id == 4 {
        if ver == 1 || ver == 2 {
            XACStandardMaterialLayer::end(d, 0, 0)
        } else {
            None
        }
    } else if id == 5 {
        if ver == 1 {
            XACFXMaterial::end(d, 0, 0)
        } else if ver == 2 {
            XACFXMaterial2::end(d, 0, 0)
        } else if ver == 3 {
            XACFXMaterial3::end(d, 0, 0)
        } else {
            None
        }
    } else if id == 6 {
        XACLimit::end(d, 0, 0)
    } else if id == 7 {
        if ver == 1 {
            XACInfo::end(d, 0, 0)
        } else if ver == 2 {
            XACInfo2::end(d, 0, 0)
        } else if ver == 3 {
            XACInfo3::end(d, 0, 0)
        } else if ver == 4 {
            XACInfo4::end(d, 0, 0)
        } else {
            None
        }
    } else if id == 8 {
        XACMeshLodLevel::end(d, 0, 0)
    } else if id == 9 {
        XACPMorphTarget::end(d, 0, 0)
    } else if id == 10 {
        XACNodeGroup::end(d, 0, 0)
    } else if id == 11 {
        XACNodes::end(d, 0, 0)
    } else if id == 12 {
        XACPMorphTargets::end(d, 0, 0)
    } else if id == 13 {
        if ver == 1 {
            XACMaterialInfo::end(d, 0, 0)
        } else if ver == 2 {
            XACMaterialInfo2::end(d, 0, 0)
        } else {
            None
        }
    } else if id == 14 {
        XACNodeMotionSources::end(d, 0, 0)
    } else if id == 15 {
        XACAttachmentNodes::end(d, 0, 0)
    } else {
        None
    }
}

/// `v` is the record read from the chunk's bytes `d` for kind `id` and
/// version `ver`.
pub open spec fn chunk_data_at(id: u32, ver: u32, d: Seq<u8>, v: XACChunkData) -> bool {
    match v {
        XACChunkData::XACInfo(x) => id == 7 && ver == 1 && XACInfo::at(d, 0, 0, x),
        XACChunkData::XACInfo2(x) => id == 7 && ver == 2 && XACInfo2::at(d, 0, 0, x),
        XACChunkData::XACInfo3(x) => id == 7 && ver == 3 && XACInfo3::at(d, 0, 0, x),
        XACChunkData::XACInfo4(x) => id == 7 && ver == 4 && XACInfo4::at(d, 0, 0, x),
        XACChunkData::XACNode(x) => id == 0 && ver == 1 && XACNode::at(d, 0, 0, x),
        XACChunkData::XACNode2(x) => id == 0 && ver == 2 && XACNode2::at(d, 0, 0, x),
        XACChunkData::XACNode3(x) => id == 0 && ver == 3 && XACNode3::at(d, 0, 0, x),
        XACChunkData::XACNode4(x) => id == 0 && ver == 4 && XACNode4::at(d, 0, 0, x),
        XACChunkData::XACSkinningInfo(x) => id == 2 && ver == 1 && XACSkinningInfo::at(d, 0, 0, x),
        XACChunkData::XACSkinningInfo2(x) => id == 2 && ver == 2 && XACSkinningInfo2::at(d, 0, 0, x),
        XACChunkData::XACSkinningInfo3(x) => id == 2 && ver == 3 && XACSkinningInfo3::at(d, 0, 0, x),
        XACChunkData::XACSkinningInfo4(x) => id == 2 && ver == 4 && XACSkinningInfo4::at(d, 0, 0, x),
        XACChunkData::XACStandardMaterial(x) => id == 3 && ver == 1 && XACStandardMaterial::at(d, 0, 0, x),
        XACChunkData::XACStandardMaterial2(x) => id == 3 && ver == 2 && XACStandardMaterial2::at(d, 0, 0, x),
        XACChunkData::XACStandardMaterial3(x) => id == 3 && ver == 3 && XACStandardMaterial3::at(d, 0, 0, x),
        XACChunkData::XACStandardMaterialLayer(x) => id == 4 && (ver == 1 || ver == 2) && XACStandardMaterialLayer::at(d, 0, 0, x),
        XACChunkData::XACStandardMaterialLayer2(_) => false,
        XACChunkData::XACSubMesh(_) => false,
        XACChunkData::XACMesh(x) => id == 1 && ver == 1 && XACMesh::at(d, 0, 0, x),
        XACChunkData::XACMesh2(x) => id == 1 && ver == 2 && XACMesh2::at(d, 0, 0, x),
        XACChunkData::XACLimit(x) => id == 6 && XACLimit::at(d, 0, 0, x),
        XACChunkData::XACPMorphTarget(x) => id == 9 && XACPMorphTarget::at(d, 0, 0, x),
        XACChunkData::XACPMorphTargets(x) => id == 12 && XACPMorphTargets::at(d, 0, 0, x),
        XACChunkData::XACFXMaterial(x) => id == 5 && ver == 1 && XACFXMaterial::at(d, 0, 0, x),
        XACChunkData::XACFXMaterial2(x) => id == 5 && ver == 2 && XACFXMaterial2::at(d, 0, 0, x),
        XACChunkData::XACFXMaterial3(x) => id == 5 && ver == 3 && XACFXMaterial3::at(d, 0, 0, x),
        XACChunkData::XACNodeGroup(x) => id == 10 && XACNodeGroup::at(d, 0, 0, x),
        XACChunkData::XACNodes(x) => id == 11 && XACNodes::at(d, 0, 0, x),
        XACChunkData::XACMaterialInfo(x) => id == 13 && ver == 1 && XACMaterialInfo::at(d, 0, 0, x),
        XACChunkData::XACMaterialInfo2(x) => id == 13 && ver == 2 && XACMaterialInfo2::at(d, 0, 0, x),
        XACChunkData::XACMeshLodLevel(x) => id == 8 && XACMeshLodLevel::at(d, 0, 0, x),
        XACChunkData::XACNodeMotionSources(x) => id == 14 && XACNodeMotionSources::at(d, 0, 0, x),
        XACChunkData::XACAttachmentNodes(x) => id == 15 && XACAttachmentNodes::at(d, 0, 0, x),
    }
}

/// Why a chunk's record cannot be read.
#[derive(Debug, Clone, Copy, PartialEq, Eq, Structural)]
pub enum XacChunkError {
    /// The kind or the version is not one that is read.
    Unsupported { chunk_id: u32, version: u32 },
    /// The chunk's bytes end before the record does.
    Malformed { chunk_id: u32, version: u32 },
}

/// Why the record of a chunk of kind `id` and version `ver` cannot be read
/// where it cannot.
pub open spec fn chunk_error(id: u32, ver: u32) -> XacChunkError {
    if chunk_supported(id, ver) {
        XacChunkError::Malformed { chunk_id: id, version: ver }
    } else {
        XacChunkError::Unsupported { chunk_id: id, version: ver }
    }
}

/// The record that a chunk's bytes `data` hold, read by the chunk's kind
/// and version; an error for a kind or version that is not read, or bytes
/// that end before the record does. Skinning records are read for no
/// original vertices.
#[verifier::rlimit(40)]
fn parse_chunk_data(chunk: &FileChunk, data: &[u8]) -> (r: Result<XACChunkData, XacChunkError>)
    ensures
        r is Ok <==> chunk_supported(chunk.chunk_id, chunk.version) && chunk_end(
            chunk.chunk_id,
            chunk.version,
            data@,
        ) is Some,
        r matches Ok(v) ==> chunk_data_at(chunk.chunk_id, chunk.version, data@, v),
        r matches Err(e) ==> e == chunk_error(chunk.chunk_id, chunk.version),
{
    let id = chunk.chunk_id;
    let ver = chunk.version;
    let unsupported = XacChunkError::Unsupported { chunk_id: id, version: ver };
    let malformed = XacChunkError::Malformed { chunk_id: id, version: ver };
    if id == XACChunk::XACChunkNode.value() {
        if ver == 1 {
            match XACNode::read(data, 0, 0) {
                Some((x, _)) => Ok(XACChunkData::XACNode(x)),
                None => Err(malformed),
            }
        } else if ver == 2 {
            match XACNode2::read(data, 0, 0) {
                Some((x, _)) => Ok(XACChunkData::XACNode2(x)),
                None => Err(malformed),
            }
        } else if ver == 3 {
            match XACNode3::read(data, 0, 0) {
                Some((x, _)) => Ok(XACChunkData::XACNode3(x)),
                None => Err(malformed),
            }
        } else if ver == 4 {
            match XACNode4::read(data, 0, 0) {
                Some((x, _)) => Ok(XACChunkData::XACNode4(x)),
                None => Err(malformed),
            }
        } else {
            Err(unsupported)
        }
    } else if id == XACChunk::XACChunkMesh.value() {
        if ver == 1 {
            match XACMesh::read(data, 0, 0) {
                Some((x, _)) => Ok(XACChunkData::XACMesh(x)),
                None => Err(malformed),
            }
        } else if ver == 2 {
            match XACMesh2::read(data, 0, 0) {
                Some((x, _)) => Ok(XACChunkData::XACMesh2(x)),
                None => Err(malformed),
            }
        } else {
            Err(unsupported)
        }
    } else if id == XACChunk::XACChunkSkinninginfo.value() {
        if ver == 1 {
            match XACSkinningInfo::read(data, 0, 0) {
                Some((x, _)) => Ok(XACChunkData::XACSkinningInfo(x)),
                None => Err(malformed),
            }
        } else if ver == 2 {
            match XACSkinningInfo2::read(data, 0, 0) {
                Some((x, _)) => Ok(XACChunkData::XACSkinningInfo2(x)),
                None => Err(malformed),
            }
        } else if ver == 3 {
            match XACSkinningInfo3::read(data, 0, 0) {
                Some((x, _)) => Ok(XACChunkData::XACSkinningInfo3(x)),
                None => Err(malformed),
            }
        } else if ver == 4 {
            match XACSkinningInfo4::read(data, 0, 0) {
                Some((x, _)) => Ok(XACChunkData::XACSkinningInfo4(x)),
                None => Err(malformed),
            }
        } else {
            Err(unsupported)
        }
    } else if id == XACChunk::XACChunkStdmaterial.value() {
        if ver == 1 {
            match XACStandardMaterial::read(data, 0, 0) {
                Some((x, _)) => Ok(XACChunkData::XACStandardMaterial(x)),
                None => Err(malformed),
            }
        } else if ver == 2 {
            match XACStandardMaterial2::read(data, 0, 0) {
                Some((x, _)) => Ok(XACChunkData::XACStandardMaterial2(x)),
                None => Err(malformed),
            }
        } else if ver == 3 {
            match XACStandardMaterial3::read(data, 0, 0) {
                Some((x, _)) => Ok(XACChunkData::XACStandardMaterial3(x)),
                None => Err(malformed),
            }
        } else {
            Err(unsupported)
        }
    } else if id == XACChunk::XACChunkStdmateriallayer.value() {
        if ver == 1 || ver == 2 {
            match XACStandardMaterialLayer::read(data, 0, 0) {
                Some((x, _)) => Ok(XACChunkData::XACStandardMaterialLayer(x)),
                None => Err(malformed),
            }
        } else {
            Err(unsupported)
        }
    } else if id == XACChunk::XACChunkFxmaterial.value() {
        if ver == 1 {
            match XACFXMaterial::read(data, 0, 0) {
                Some((x, _)) => Ok(XACChunkData::XACFXMaterial(x)),
                None => Err(malformed),
            }
        } else if ver == 2 {
            match XACFXMaterial2::read(data, 0, 0) {
                Some((x, _)) => Ok(XACChunkData::XACFXMaterial2(x)),
                None => Err(malformed),
            }
        } else if ver == 3 {
            match XACFXMaterial3::read(data, 0, 0) {
                Some((x, _)) => Ok(XACChunkData::XACFXMaterial3(x)),
                None => Err(malformed),
            }
        } else {
            Err(unsupported)
        }
    } else if id == XACChunk::XACChunkLimit.value() {
        match XACLimit::read(data, 0, 0) {
            Some((x, _)) => Ok(XACChunkData::XACLimit(x)),
            None => Err(malformed),
        }
    } else if id == XACChunk::XACChunkInfo.value() {
        if ver == 1 {
            match XACInfo::read(data, 0, 0) {
                Some((x, _)) => Ok(XACChunkData::XACInfo(x)),
                None => Err(malformed),
            }
        } else if ver == 2 {
            match XACInfo2::read(data, 0, 0) {
                Some((x, _)) => Ok(XACChunkData::XACInfo2(x)),
                None => Err(malformed),
            }
        } else if ver == 3 {
            match XACInfo3::read(data, 0, 0) {
                Some((x, _)) => Ok(XACChunkData::XACInfo3(x)),
                None => Err(malformed),
            }
        } else if ver == 4 {
            match XACInfo4::read(data, 0, 0) {
                Some((x, _)) => Ok(XACChunkData::XACInfo4(x)),
                None => Err(malformed),
            }
        } else {
            Err(unsupported)
        }
    } else if id == XACChunk::XACChunkMeshlodlevels.value() {
        match XACMeshLodLevel::read(data, 0, 0) {
            Some((x, _)) => Ok(XACChunkData::XACMeshLodLevel(x)),
            None => Err(malformed),
        }
    } else if id == XACChunk::XACChunkStdprogmorphtarget.value() {
        match XACPMorphTarget::read(data, 0, 0) {
            Some((x, _)) => Ok(XACChunkData::XACPMorphTarget(x)),
            None => Err(malformed),
        }
    } else if id == XACChunk::XACChunkNodegroups.value() {
        match XACNodeGroup::read(data, 0, 0) {
            Some((x, _)) => Ok(XACChunkData::XACNodeGroup(x)),
            None => Err(malformed),
        }
    } else if id == XACChunk::XACChunkNodes.value() {
        match XACNodes::read(data, 0, 0) {
            Some((x, _)) => Ok(XACChunkData::XACNodes(x)),
            None => Err(malformed),
        }
    } else if id == XACChunk::XACChunkStdpmorphtargets.value() {
        match XACPMorphTargets::read(data, 0, 0) {
            Some((x, _)) => Ok(XACChunkData::XACPMorphTargets(x)),
            None => Err(malformed),
        }
    } else if id == XACChunk::XACChunkMaterialinfo.value() {
        if ver == 1 {
            match XACMaterialInfo::read(data, 0, 0) {
                Some((x, _)) => Ok(XACChunkData::XACMaterialInfo(x)),
                None => Err(malformed),
            }
        } else if ver == 2 {
            match XACMaterialInfo2::read(data, 0, 0) {
                Some((x, _)) => Ok(XACChunkData::XACMaterialInfo2(x)),
                None => Err(malformed),
            }
        } else {
            Err(unsupported)
        }
    } else if id == XACChunk::XACChunkNodemotionsources.value() {
        match XACNodeMotionSources::read(data, 0, 0) {
            Some((x, _)) => Ok(XACChunkData::XACNodeMotionSources(x)),
            None => Err(malformed),
        }
    } else if id == XACChunk::XACChunkAttachmentnodes.value() {
        match XACAttachmentNodes::read(data, 0, 0) {
            Some((x, _)) => Ok(XACChunkData::XACAttachmentNodes(x)),
            None => Err(malformed),
        }
    } else {
        Err(unsupported)
    }
}

// ------------------------------------------------------------------ the file

/// A chunk: its frame and its record.
pub struct XACChunkEntry {
    pub chunk: FileChunk,
    pub chunk_data: XACChunkData,
}

/// A whole file: its header and its chunks in file order.
pub struct XACRoot {
    pub header: XACHeader,
    pub chunks: Vec<XACChunkEntry>,
}

/// Why a file cannot be read.
#[derive(Debug, Clone, Copy, PartialEq, Eq, Structural)]
pub enum XacError {
    /// The data is shorter than the header.
    Header,
    /// A chunk's frame announces more bytes than are left.
    UnexpectedEof,
}

/// Why a file cannot be read, with the chunks whose records cannot be read.
#[derive(Debug, Clone, Copy, PartialEq, Eq, Structural)]
pub enum XacFault {
    Header,
    UnexpectedEof,
    Chunk(XacChunkError),
}

/// How reading chunks from a position ends: with the positions of the
/// frames read, on a frame that announces more bytes than are left, or on
/// the frame at a position whose record cannot be read.
pub enum XacRun {
    Done(Seq<int>),
    Eof,
    Crash(int),
}

/// Kind, size and version of the frame at `p`.
pub open spec fn frame_id(b: Seq<u8>, p: int) -> u32 {
    le32(b, p) as u32
}

pub open spec fn frame_size(b: Seq<u8>, p: int) -> int {
    le32(b, p + 4)
}

pub open spec fn frame_version(b: Seq<u8>, p: int) -> u32 {
    le32(b, p + 8) as u32
}

/// The bytes of the record framed at `p`.
pub open spec fn frame_data(b: Seq<u8>, p: int) -> Seq<u8> {
    b.subrange(p + 12, p + 12 + frame_size(b, p))
}

/// The record framed at `p` can be read.
pub open spec fn frame_ok(b: Seq<u8>, p: int) -> bool {
    chunk_supported(frame_id(b, p), frame_version(b, p)) && chunk_end(
        frame_id(b, p),
        frame_version(b, p),
        frame_data(b, p),
    ) is Some
}

/// Reading chunks from `p`: frames follow each other while twelve bytes are
/// left for one; each frame's record takes the size that the frame gives.
pub open spec fn chunks_from(b: Seq<u8>, p: int) -> XacRun
    decreases b.len() - p,
{
    if p < 0 || b.len() - p < 12 {
        XacRun::Done(Seq::empty())
    } else if b.len() - (p + 12) < frame_size(b, p) {
        XacRun::Eof
    } else if !frame_ok(b, p) {
        XacRun::Crash(p)
    } else {
        match chunks_from(b, p + 12 + frame_size(b, p)) {
            XacRun::Done(s) => XacRun::Done(seq![p] + s),
            other => other,
        }
    }
}

/// The run `r` after the frames at the positions of `s`.
pub open spec fn after(s: Seq<int>, r: XacRun) -> XacRun {
    match r {
        XacRun::Done(t) => XacRun::Done(s + t),
        other => other,
    }
}

/// `e` is the chunk framed at `p`.
pub open spec fn entry_at(b: Seq<u8>, p: int, e: XACChunkEntry) -> bool {
    &&& FileChunk::at(b, p, 0, e.chunk)
    &&& chunk_data_at(frame_id(b, p), frame_version(b, p), frame_data(b, p), e.chunk_data)
}

/// `entries` are the chunks framed at the positions `starts`.
pub open spec fn entries_at(b: Seq<u8>, starts: Seq<int>, entries: Seq<XACChunkEntry>) -> bool {
    &&& entries.len() == starts.len()
    &&& forall|i: int| 0 <= i < starts.len() ==> entry_at(b, starts[i], #[trigger] entries[i])
}

/// Reads the chunks from `p` to the end.
#[verifier::rlimit(60)]
fn read_chunks(b: &[u8], p: usize) -> (r: Result<Vec<XACChunkEntry>, XacFault>)
    ensures
        match chunks_from(b@, p as int) {
            XacRun::Done(starts) => r matches Ok(es) && entries_at(b@, starts, es@),
            XacRun::Eof => r == Err::<Vec<XACChunkEntry>, XacFault>(XacFault::UnexpectedEof),
            XacRun::Crash(q) => r == Err::<Vec<XACChunkEntry>, XacFault>(
                XacFault::Chunk(chunk_error(frame_id(b@, q), frame_version(b@, q))),
            ),
        },
{
    let mut chunks: Vec<XACChunkEntry> = Vec::new();
    let mut pos: usize = p;
    let ghost mut starts: Seq<int> = Seq::empty();
    loop
        invariant
            p <= pos,
            chunks_from(b@, p as int) == after(starts, chunks_from(b@, pos as int)),
            entries_at(b@, starts, chunks@),
        decreases b@.len() - pos,
    {
        if pos > b.len() || b.len() - pos < 12 {
            assert(chunks_from(b@, pos as int) == XacRun::Done(Seq::<int>::empty()));
            assert(starts + Seq::<int>::empty() =~= starts);
            return Ok(chunks);
        }
        let (chunk, q) = FileChunk::read(b, pos, 0).unwrap();
        let size = chunk.size_in_bytes as usize;
        if b.len() - q < size {
            return Err(XacFault::UnexpectedEof);
        }
        let end = q + size;
        let data = &b[q..end];
        assert(data@ == frame_data(b@, pos as int));
        match parse_chunk_data(&chunk, data) {
            Ok(chunk_data) => {
                let ghost old_starts = starts;
                proof {
                    assert(frame_ok(b@, pos as int));
                    starts = starts.push(pos as int);
                    match chunks_from(b@, end as int) {
                        XacRun::Done(t) => {
                            assert(old_starts + (seq![pos as int] + t) =~= starts + t);
                        },
                        _ => {},
                    }
                }
                chunks.push(XACChunkEntry { chunk, chunk_data });
                assert(entries_at(b@, starts, chunks@)) by {
                    assert forall|i: int| 0 <= i < starts.len() implies entry_at(
                        b@,
                        starts[i],
                        #[trigger] chunks@[i],
                    ) by {
                        if i < old_starts.len() {
                            assert(starts[i] == old_starts[i]);
                        }
                    }
                }
                pos = end;
            },
            Err(e) => {
                return Err(XacFault::Chunk(e));
            },
        }
    }
}

/// `r` is the file that `b` holds: the header at the start and the chunks
/// framed at `starts`.
pub open spec fn root_at(b: Seq<u8>, starts: Seq<int>, r: XACRoot) -> bool {
    &&& XACHeader::at(b, 0, 0, r.header)
    &&& entries_at(b, starts, r.chunks@)
}

/// Reading `b` stops on a chunk whose record cannot be read.
pub open spec fn xac_crashes(b: Seq<u8>) -> bool {
    b.len() >= 8 && chunks_from(b, 8) is Crash
}

impl XACRoot {
    /// Reads a file: the header, then the chunks while twelve bytes are left
    /// for a frame. Fails where the data is shorter than the header or a
    /// frame announces more bytes than are left; reports a chunk whose kind
    /// or version is not read, or whose bytes end before its record does.
    pub fn try_from_bytes(b: &[u8]) -> (r: Result<XACRoot, XacFault>)
        ensures
            b@.len() < 8 ==> r == Err::<XACRoot, XacFault>(XacFault::Header),
            b@.len() >= 8 ==> match chunks_from(b@, 8) {
                XacRun::Done(starts) => r matches Ok(root) && root_at(b@, starts, root),
                XacRun::Eof => r == Err::<XACRoot, XacFault>(XacFault::UnexpectedEof),
                XacRun::Crash(q) => r == Err::<XACRoot, XacFault>(
                    XacFault::Chunk(chunk_error(frame_id(b@, q), frame_version(b@, q))),
                ),
            },
    {
        let (header, p) = match XACHeader::read(b, 0, 0) {
            Some(h) => h,
            None => {
                return Err(XacFault::Header);
            },
        };
        let chunks = read_chunks(b, p)?;
        Ok(XACRoot { header, chunks })
    }

    /// Reads a file: the header, then the chunks while twelve bytes are left
    /// for a frame. Fails where the data is shorter than the header or a
    /// frame announces more bytes than are left. On data with a chunk whose
    /// record cannot be read (see `try_from_bytes`) it is not to be called.
    pub fn from_bytes(b: &[u8]) -> (r: Result<XACRoot, XacError>)
        requires
            !xac_crashes(b@),
        ensures
            b@.len() < 8 ==> r == Err::<XACRoot, XacError>(XacError::Header),
            b@.len() >= 8 ==> match chunks_from(b@, 8) {
                XacRun::Done(starts) => r matches Ok(root) && root_at(b@, starts, root),
                _ => r == Err::<XACRoot, XacError>(XacError::UnexpectedEof),
            },
    {
        match XACRoot::try_from_bytes(b) {
            Ok(root) => Ok(root),
            Err(XacFault::Header) => Err(XacError::Header),
            Err(_) => Err(XacError::UnexpectedEof),
        }
    }
}

// ------------------------------------------------------------------ textures

/// The texts of `v`.
pub open spec fn texts_of(v: Seq<String>) -> Seq<Seq<char>> {
    v.map_values(|s: String| s@)
}

/// The texture names of a run of texture parameters.
pub open spec fn value_names(v: Seq<XACFXBitmapParameter>) -> Seq<Seq<char>> {
    v.map_values(|p: XACFXBitmapParameter| p.value_name@)
}

/// The texture names of effect-material texture parameters.
pub open spec fn bitmap_names(o: Option<Vec<XACFXBitmapParameter>>) -> Seq<Seq<char>> {
    match o {
        Some(v) => value_names(v@),
        None => Seq::empty(),
    }
}

/// The texture names a chunk gives: a standard material's name, or the
/// texture names of an effect material's texture parameters, where the
/// record is of the kind and version that the frame gives.
pub open spec fn entry_textures(e: XACChunkEntry) -> Seq<Seq<char>> {
    let id = e.chunk.chunk_id;
    let ver = e.chunk.version;
    match e.chunk_data {
        XACChunkData::XACStandardMaterial(m) => if id == 3 && ver == 1 {
            seq![m.material_name@]
        } else {
            Seq::empty()
        },
        XACChunkData::XACStandardMaterial2(m) => if id == 3 && ver == 2 {
            seq![m.material_name@]
        } else {
            Seq::empty()
        },
        XACChunkData::XACStandardMaterial3(m) => if id == 3 && ver == 3 {
            seq![m.material_name@]
        } else {
            Seq::empty()
        },
        XACChunkData::XACFXMaterial(m) => if id == 5 && ver == 1 {
            bitmap_names(m.xac_fx_bitmap_parameter)
        } else {
            Seq::empty()
        },
        XACChunkData::XACFXMaterial2(m) => if id == 5 && ver == 2 {
            bitmap_names(m.xac_fx_bitmap_parameter)
        } else {
            Seq::empty()
        },
        XACChunkData::XACFXMaterial3(m) => if id == 5 && ver == 3 {
            bitmap_names(m.xac_fx_bitmap_parameter)
        } else {
            Seq::empty()
        },
        _ => Seq::empty(),
    }
}

/// The texture names of the chunks `es`, chunk after chunk.
pub open spec fn textures_of(es: Seq<XACChunkEntry>) -> Seq<Seq<char>>
    decreases es.len(),
{
    if es.len() == 0 {
        Seq::empty()
    } else {
        textures_of(es.drop_last()) + entry_textures(es.last())
    }
}

/// Appends the texture names of `params` to `out`.
fn push_bitmap_names(out: &mut Vec<String>, params: &Option<Vec<XACFXBitmapParameter>>)
    ensures
        texts_of(final(out)@) == texts_of(old(out)@) + bitmap_names(*params),
{
    if let Some(bitmaps) = params {
        let ghost start = texts_of(out@);
        let mut i: usize = 0;
        while i < bitmaps.len()
            invariant
                i <= bitmaps@.len(),
                texts_of(out@) == start + value_names(bitmaps@.take(i as int)),
            decreases bitmaps.len() - i,
        {
            let ghost prev = out@;
            out.push(bitmaps[i].value_name.clone());
            assert(texts_of(out@) =~= texts_of(prev).push(bitmaps@[i as int].value_name@));
            assert(value_names(bitmaps@.take(i + 1)) =~= value_names(bitmaps@.take(i as int)).push(
                bitmaps@[i as int].value_name@,
            ));
            i = i + 1;
        }
        assert(bitmaps@.take(bitmaps@.len() as int) =~= bitmaps@);
    } else {
        assert(texts_of(out@) + Seq::<Seq<char>>::empty() =~= texts_of(out@));
    }
}

impl XACRoot {
    /// The names of the textures the file's materials use, in chunk order:
    /// each standard material's name, and the texture names of each effect
    /// material's texture parameters.
    pub fn get_texture_names(&self) -> (r: Vec<String>)
        ensures
            texts_of(r@) == textures_of(self.chunks@),
    {
        let mut textures: Vec<String> = Vec::new();
        let mut i: usize = 0;
        while i < self.chunks.len()
            invariant
                i <= self.chunks@.len(),
                texts_of(textures@) == textures_of(self.chunks@.take(i as int)),
            decreases self.chunks.len() - i,
        {
            let entry = &self.chunks[i];
            let ghost before = textures@;
            let id = entry.chunk.chunk_id;
            let ver = entry.chunk.version;
            if id == XACChunk::XACChunkStdmaterial.value() {
                match &entry.chunk_data {
                    XACChunkData::XACStandardMaterial(mat) => {
                        if ver == 1 {
                            textures.push(mat.material_name.clone());
                        }
                    },
                    XACChunkData::XACStandardMaterial2(mat) => {
                        if ver == 2 {
                            textures.push(mat.material_name.clone());
                        }
                    },
                    XACChunkData::XACStandardMaterial3(mat) => {
                        if ver == 3 {
                            textures.push(mat.material_name.clone());
                        }
                    },
                    _ => {},
                }
            } else if id == XACChunk::XACChunkFxmaterial.value() {
                match &entry.chunk_data {
                    XACChunkData::XACFXMaterial(mat) => {
                        if ver == 1 {
                            push_bitmap_names(&mut textures, &mat.xac_fx_bitmap_parameter);
                        }
                    },
                    XACChunkData::XACFXMaterial2(mat) => {
                        if ver == 2 {
                            push_bitmap_names(&mut textures, &mat.xac_fx_bitmap_parameter);
                        }
                    },
                    XACChunkData::XACFXMaterial3(mat) => {
                        if ver == 3 {
                            push_bitmap_names(&mut textures, &mat.xac_fx_bitmap_parameter);
                        }
                    },
                    _ => {},
                }
            }
            assert(self.chunks@.take(i + 1).drop_last() =~= self.chunks@.take(i as int));
            assert(texts_of(textures@) =~= texts_of(before) + entry_textures(self.chunks@[i as int]));
            i = i + 1;
        }
        assert(self.chunks@.take(self.chunks@.len() as int) =~= self.chunks@);
        textures
    }
}

} // verus!
