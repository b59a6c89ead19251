//! Integer vectors and rectangles in pixel space, and the answer of a
//! texture size lookup.

use vstd::prelude::*;

verus! {

/// A signed integer 2D vector or point, in pixels.
#[derive(Clone, Copy, Debug, PartialEq, Eq, Structural)]
pub struct IVec2 {
    pub x: i32,
    pub y: i32,
}

/// An unsigned integer 2D size, in pixels.
#[derive(Clone, Copy, Debug, PartialEq, Eq, Structural)]
pub struct UVec2 {
    pub x: u32,
    pub y: u32,
}

/// A rectangle given by its top-left corner and its size.
#[derive(Clone, Copy, Debug, PartialEq, Eq, Structural)]
pub struct IRect {
    pub offset: IVec2,
    pub size: IVec2,
}

/// The rectangle `r` is present and has corner `(x, y)` and size `(w, h)`.
pub open spec fn is_rect(r: Option<IRect>, x: int, y: int, w: int, h: int) -> bool {
    &&& r is Some
    &&& r->0.offset.x == x
    &&& r->0.offset.y == y
    &&& r->0.size.x == w
    &&& r->0.size.y == h
}

pub fn ivec2(x: i32, y: i32) -> (r: IVec2)
    ensures
        r.x == x,
        r.y == y,
{
    IVec2 { x, y }
}

pub fn uvec2(x: u32, y: u32) -> (r: UVec2)
    ensures
        r.x == x,
        r.y == y,
{
    UVec2 { x, y }
}

impl IRect {
    pub fn new(offset: IVec2, size: IVec2) -> (r: IRect)
        ensures
            r.offset == offset,
            r.size == size,
    {
        IRect { offset, size }
    }
}

/// What a texture size lookup can answer.
#[derive(Clone, Copy, Debug, PartialEq, Eq, Structural)]
pub enum ImageSizeResult {
    /// The texture is loaded and has this size.
    Loaded(UVec2),
    /// The texture is known but its pixels are not available yet.
    LoadingInProgress,
    /// No texture of that name is known.
    ImageNotFound,
}

/// The size used for a spritesheet whose texture size is not available.
pub const FALLBACK_SIZE: u32 = 64;

/// The lookup answer is a loaded size that fits the signed coordinates of a
/// rectangle.
pub open spec fn size_usable(size: ImageSizeResult) -> bool {
    match size {
        ImageSizeResult::Loaded(s) => s.x <= i32::MAX && s.y <= i32::MAX,
        _ => false,
    }
}

/// Width and height used to cut a spritesheet, for a lookup answer: the
/// loaded size where it is usable, else 64 by 64 pixels.
pub open spec fn sheet_size(size: ImageSizeResult) -> (int, int) {
    match size {
        ImageSizeResult::Loaded(s) if size_usable(size) => (s.x as int, s.y as int),
        _ => (FALLBACK_SIZE as int, FALLBACK_SIZE as int),
    }
}

/// Whether the lookup answer is a loaded size that fits the signed
/// coordinates of a rectangle.
pub fn is_usable(size: ImageSizeResult) -> (r: bool)
    ensures
        r == size_usable(size),
{
    match size {
        ImageSizeResult::Loaded(s) => s.x <= i32::MAX as u32 && s.y <= i32::MAX as u32,
        _ => false,
    }
}

} // verus!
