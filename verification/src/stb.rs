//! A decoded image: its size, its channels per pixel and its pixels.

use vstd::prelude::*;

verus! {

/// An image of `width` by `height` pixels, `channels` bytes each, row after
/// row.
pub struct Image {
    pub width: i32,
    pub height: i32,
    pub channels: i32,
    pub data: Vec<u8>,
}

} // verus!
