//! Records and kinds shared by the XAC, XSM and XPM formats.

use vstd::prelude::*;
pub use crate::xac::{
    FileChunk, FileColor, FileVector3, File16BitVector3, File8BitVector3, FileQuaternion,
    File16BitQuaternion,
};

verus! {

/// The chunk kind of a motion event table.
pub const MOTION_EVENT_TABLE: u32 = 50;

/// The chunk kind of a time stamp.
pub const TIMESTAMP: u32 = 51;

/// Kinds of skeletal motions.
#[derive(Debug, Clone, Copy, PartialEq, Eq, Structural)]
pub enum SkeletalMotionType {
    /// Keyframes and key tracks.
    Normal,
    /// Wavelet-compressed.
    Wavelet,
}

impl SkeletalMotionType {
    /// The number that stands for the kind in a file.
    pub fn value(&self) -> (r: u32)
        ensures
            r == match *self {
                SkeletalMotionType::Normal => 0u32,
                SkeletalMotionType::Wavelet => 1u32,
            },
    {
        match self {
            SkeletalMotionType::Normal => 0,
            SkeletalMotionType::Wavelet => 1,
        }
    }
}

/// Kinds of files.
#[derive(Debug, Clone, Copy, PartialEq, Eq, Structural)]
pub enum FileType {
    Unknown,
    /// An actor (.xac).
    Actor,
    /// A skeletal motion (.xsm).
    SkeletalMotion,
    /// A wavelet-compressed skeletal motion (.xsm).
    WaveletSkeletalMotion,
    /// A progressive morph motion (.xpm).
    PMorphMotion,
}

impl FileType {
    /// The number that stands for the kind in a file.
    pub fn value(&self) -> (r: u32)
        ensures
            r == match *self {
                FileType::Unknown => 0u32,
                FileType::Actor => 1u32,
                FileType::SkeletalMotion => 2u32,
                FileType::WaveletSkeletalMotion => 3u32,
                FileType::PMorphMotion => 4u32,
            },
    {
        match self {
            FileType::Unknown => 0,
            FileType::Actor => 1,
            FileType::SkeletalMotion => 2,
            FileType::WaveletSkeletalMotion => 3,
            FileType::PMorphMotion => 4,
        }
    }
}

/// The order in which a transform's parts are multiplied.
#[derive(Debug, Clone, Copy, PartialEq, Eq, Structural)]
pub enum MultiplicationOrder {
    ScaleRotTrans,
    RotScaleTrans,
}

impl MultiplicationOrder {
    /// The number that stands for the order in a file.
    pub fn value(&self) -> (r: u32)
        ensures
            r == match *self {
                MultiplicationOrder::ScaleRotTrans => 0u32,
                MultiplicationOrder::RotScaleTrans => 1u32,
            },
    {
        match self {
            MultiplicationOrder::ScaleRotTrans => 0,
            MultiplicationOrder::RotScaleTrans => 1,
        }
    }
}

/// A motion event; `time` holds the bits of a 32-bit float.
#[derive(Debug, Clone, Copy, PartialEq, Eq, Structural)]
pub struct FileMotionEvent {
    pub time: u32,
    pub event_type_index: u32,
    pub param_index: u32,
}

/// A motion event with a duration; the times hold the bits of 32-bit
/// floats.
#[derive(Debug, Clone, Copy, PartialEq, Eq, Structural)]
pub struct FileMotionEvent2 {
    pub start_time: u32,
    pub end_time: u32,
    pub event_type_index: u32,
    pub param_index: u32,
}

/// A motion event with a 16-bit parameter index; the times hold the bits of
/// 32-bit floats.
#[derive(Debug, Clone, Copy)]
pub struct FileMotionEvent3 {
    pub start_time: u32,
    pub end_time: u32,
    pub event_type_index: u32,
    pub param_index: u16,
    pub padding: [u8; 2],
}

/// A date and time.
#[derive(Debug, Clone, Copy, PartialEq, Eq, Structural)]
pub struct FileTime {
    pub year: u16,
    pub month: i8,
    pub day: i8,
    pub hours: i8,
    pub minutes: i8,
    pub seconds: i8,
    pub padding: u8,
}

/// A track of motion events: how many events, type strings and parameter
/// strings follow.
#[derive(Debug, Clone, Copy, PartialEq, Eq, Structural)]
pub struct FileMotionEventTrack {
    pub num_events: u32,
    pub num_type_strings: u32,
    pub num_param_strings: u32,
}

/// As `FileMotionEventTrack`, with whether the track is enabled.
#[derive(Debug, Clone, Copy)]
pub struct FileMotionEventTrack2 {
    pub num_events: u32,
    pub num_type_strings: u32,
    pub num_param_strings: u32,
    pub is_enabled: bool,
    pub padding: [u8; 3],
}

/// A table of motion event tracks: how many follow.
#[derive(Debug, Clone, Copy, PartialEq, Eq, Structural)]
pub struct FileMotionEventTable {
    pub num_tracks: u32,
}

/// A vertex attribute: its data type, its size in bytes and its flags.
#[derive(Debug, Clone, Copy, PartialEq, Eq, Structural)]
pub struct FileAttribute {
    pub data_type: u32,
    pub num_bytes: u32,
    pub flags: u32,
}

impl FileAttribute {
    /// The attribute with these three values.
    pub fn new(data_type: u32, num_bytes: u32, flags: u32) -> (r: FileAttribute)
        ensures
            r == (FileAttribute { data_type, num_bytes, flags }),
    {
        FileAttribute { data_type, num_bytes, flags }
    }
}

} // verus!
