//! In-memory form of a sheet description as exported by a sprite authoring
//! tool: the raw frame array plus sheet metadata.  Decoding the description
//! text into these values happens outside this crate; the types here carry
//! the already-decoded plain data that drives [`crate::sprites::ClipStore`].

use vstd::prelude::*;

use crate::sprites::{Frame, FrameTag};

verus! {

/// Pixel dimensions of the shared texture atlas.
#[derive(Debug, Clone, PartialEq, Eq, Structural)]
pub struct Dimensions {
    pub width: i32,
    pub height: i32,
}

/// Sheet metadata: the named tag ranges and the atlas size.
#[derive(Debug, Clone, PartialEq)]
pub struct Meta {
    pub frame_tags: Vec<FrameTag>,
    pub size: Dimensions,
}

/// A complete sheet description: the raw frame array and its metadata.
#[derive(Debug, Clone, PartialEq)]
pub struct ExportData {
    pub frames: Vec<Frame>,
    pub meta: Meta,
}

} // verus!
