//! Where the pixels of an animation's frames live, and how a frame index
//! becomes a texture name and a source rectangle.

use vstd::prelude::*;
use crate::geometry::{
    is_rect, is_usable, ivec2, sheet_size, IRect, ImageSizeResult, IVec2, FALLBACK_SIZE,
};
use crate::text::{decimal, push_decimal};
use vstd::arithmetic::div_mod::lemma_fundamental_div_mod;

verus! {

/// A grid of `rows` by `columns` equal cells covering a whole texture.
#[derive(Clone, Copy, Debug, PartialEq, Eq, Structural)]
pub struct Spritesheet {
    pub rows: usize,
    pub columns: usize,
}

/// Where the frames of an animation come from.
#[derive(Debug)]
pub enum AnimationSource {
    /// One image per frame, named by `prefix` followed by the frame number.
    Files { prefix: String, frames: i32 },
    /// Frame `i` is the cell of size `size` at `offset + step * i` in the
    /// texture `name`.
    Atlas { name: String, offset: IVec2, step: IVec2, size: IVec2, frames: i32 },
    /// Frames are the cells of a grid laid over the texture `name`, read row
    /// by row; the cell size follows from the texture's loaded size.
    Spritesheet { name: String, spritesheet: Spritesheet },
}

impl Clone for AnimationSource {
    fn clone(&self) -> (r: Self)
        ensures
            r == *self,
    {
        match self {
            AnimationSource::Files { prefix, frames } => {
                AnimationSource::Files { prefix: prefix.clone(), frames: *frames }
            },
            AnimationSource::Atlas { name, offset, step, size, frames } => AnimationSource::Atlas {
                name: name.clone(),
                offset: *offset,
                step: *step,
                size: *size,
                frames: *frames,
            },
            AnimationSource::Spritesheet { name, spritesheet } => {
                AnimationSource::Spritesheet { name: name.clone(), spritesheet: *spritesheet }
            },
        }
    }
}

/// The value fits in an `i32`.
pub open spec fn fits_i32(v: int) -> bool {
    i32::MIN <= v <= i32::MAX
}

/// Corner of atlas frame `i`: `offset + step * i`.
pub open spec fn atlas_origin(offset: IVec2, step: IVec2, i: int) -> (int, int) {
    (offset.x + step.x * i, offset.y + step.y * i)
}

/// Corner and size of cell `i` of a spritesheet cut from an image of size
/// `image`: row `i / columns`, column `i % columns`.
pub open spec fn sheet_cell(sheet: Spritesheet, image: (int, int), i: int) -> (int, int, int, int) {
    let w = image.0 / (sheet.columns as int);
    let h = image.1 / (sheet.rows as int);
    let row = i / (sheet.columns as int);
    let col = i % (sheet.columns as int);
    (col * w, row * h, w, h)
}

impl AnimationSource {
    /// Number of frames of the animation.
    pub open spec fn frame_count(&self) -> int {
        match self {
            AnimationSource::Files { frames, .. } => *frames as int,
            AnimationSource::Atlas { frames, .. } => *frames as int,
            AnimationSource::Spritesheet { spritesheet, .. } => {
                spritesheet.rows as int * spritesheet.columns as int
            },
        }
    }

    /// At least one frame, and every frame's rectangle representable.
    pub open spec fn wf(&self) -> bool {
        match self {
            AnimationSource::Files { frames, .. } => *frames >= 1,
            AnimationSource::Atlas { offset, step, frames, .. } => {
                &&& *frames >= 1
                &&& fits_i32(atlas_origin(*offset, *step, *frames - 1).0)
                &&& fits_i32(atlas_origin(*offset, *step, *frames - 1).1)
            },
            AnimationSource::Spritesheet { spritesheet, .. } => {
                &&& spritesheet.rows >= 1
                &&& spritesheet.columns >= 1
                &&& spritesheet.rows * spritesheet.columns <= i32::MAX
            },
        }
    }

    /// A valid source has at least one frame.
    pub proof fn lemma_frame_count_positive(&self)
        requires
            self.wf(),
        ensures
            self.frame_count() >= 1,
    {
        if let AnimationSource::Spritesheet { spritesheet, .. } = self {
            let rows = spritesheet.rows as int;
            let columns = spritesheet.columns as int;
            assert(rows * columns >= 1) by (nonlinear_arith)
                requires rows >= 1, columns >= 1;
        }
    }

    /// Texture name of frame `i`.
    pub open spec fn texture_of(&self, i: int) -> Seq<char> {
        match self {
            AnimationSource::Files { prefix, .. } => prefix@ + decimal(i as nat),
            AnimationSource::Atlas { name, .. } => name@,
            AnimationSource::Spritesheet { name, .. } => name@,
        }
    }

    /// The rectangle `r` is the right one for frame `i`, with `size` the
    /// answer of the texture size lookup (used by spritesheets only).
    pub open spec fn rect_of(&self, i: int, size: ImageSizeResult, r: Option<IRect>) -> bool {
        match self {
            AnimationSource::Files { .. } => r is None,
            AnimationSource::Atlas { offset, step, size: cell, .. } => {
                let o = atlas_origin(*offset, *step, i);
                is_rect(r, o.0, o.1, cell.x as int, cell.y as int)
            },
            AnimationSource::Spritesheet { spritesheet, .. } => {
                let c = sheet_cell(*spritesheet, sheet_size(size), i);
                is_rect(r, c.0, c.1, c.2, c.3)
            },
        }
    }

    /// Number of frames of the animation.
    pub fn frames(&self) -> (r: i32)
        requires
            self.wf(),
        ensures
            r == self.frame_count(),
            r >= 1,
    {
        match self {
            AnimationSource::Files { frames, .. } => *frames,
            AnimationSource::Atlas { frames, .. } => *frames,
            AnimationSource::Spritesheet { spritesheet, .. } => {
                let rows = spritesheet.rows;
                let columns = spritesheet.columns;
                assert(rows * columns >= 1) by (nonlinear_arith)
                    requires rows >= 1, columns >= 1;
                (rows * columns) as i32
            },
        }
    }

    /// Texture name and source rectangle of frame `frame`. `size` is what the
    /// texture size lookup answered for the texture; only spritesheets use it,
    /// and cut the sheet as if it were 64 by 64 pixels unless the answer is a
    /// loaded size whose sides fit an `i32`.
    pub fn rect_for(&self, frame: i32, size: ImageSizeResult) -> (r: (String, Option<IRect>))
        requires
            self.wf(),
            0 <= frame < self.frame_count(),
        ensures
            r.0@ == self.texture_of(frame as int),
            self.rect_of(frame as int, size, r.1),
    {
        match self {
            AnimationSource::Files { prefix, .. } => {
                let mut texture = prefix.clone();
                push_decimal(&mut texture, frame as u32);
                (texture, None)
            },
            AnimationSource::Atlas { name, offset, step, size: cell, frames } => {
                proof {
                    lemma_atlas_fits(offset.x as int, step.x as int, frame as int, *frames as int);
                    lemma_atlas_fits(offset.y as int, step.y as int, frame as int, *frames as int);
                }
                proof {
                    lemma_i32_product(step.x as int, frame as int);
                    lemma_i32_product(step.y as int, frame as int);
                }
                let x = offset.x as i64 + step.x as i64 * frame as i64;
                let y = offset.y as i64 + step.y as i64 * frame as i64;
                let corner = ivec2(x as i32, y as i32);
                (name.clone(), Some(IRect::new(corner, *cell)))
            },
            AnimationSource::Spritesheet { name, spritesheet } => {
                let (width, height): (u32, u32) = match size {
                    ImageSizeResult::Loaded(s) if is_usable(size) => (s.x, s.y),
                    _ => (FALLBACK_SIZE, FALLBACK_SIZE),
                };
                let columns = spritesheet.columns;
                let rows = spritesheet.rows;
                let w = (width as usize) / columns;
                let h = (height as usize) / rows;
                let index = frame as usize;
                let row = index / columns;
                let col = index % columns;
                proof {
                    lemma_row_bound(index as int, columns as int, rows as int);
                    lemma_cell_within(col as int, columns as int, width as int);
                    lemma_cell_within(row as int, rows as int, height as int);
                }
                let corner = ivec2((col * w) as i32, (row * h) as i32);
                let cell = ivec2(w as i32, h as i32);
                (name.clone(), Some(IRect::new(corner, cell)))
            },
        }
    }

    /// Whether the source is well formed: it has at least one frame, and
    /// every frame's rectangle has coordinates that fit an `i32`.
    pub fn is_valid(&self) -> (r: bool)
        ensures
            r == self.wf(),
    {
        match self {
            AnimationSource::Files { frames, .. } => *frames >= 1,
            AnimationSource::Atlas { offset, step, frames, .. } => {
                if *frames < 1 {
                    return false;
                }
                let last = (*frames - 1) as i64;
                proof {
                    lemma_i32_product(step.x as int, last as int);
                    lemma_i32_product(step.y as int, last as int);
                }
                let x = offset.x as i64 + step.x as i64 * last;
                let y = offset.y as i64 + step.y as i64 * last;
                i32::MIN as i64 <= x && x <= i32::MAX as i64 && i32::MIN as i64 <= y
                    && y <= i32::MAX as i64
            },
            AnimationSource::Spritesheet { spritesheet, .. } => {
                let rows = spritesheet.rows;
                let columns = spritesheet.columns;
                if rows < 1 || columns < 1 {
                    return false;
                }
                let fits = columns <= (i32::MAX as usize) / rows;
                proof {
                    lemma_product_bound(rows as int, columns as int, i32::MAX as int);
                }
                fits
            },
        }
    }
}

/// Atlas frames between the first and the last have corners between theirs.
proof fn lemma_atlas_fits(o: int, s: int, i: int, n: int)
    requires
        fits_i32(o),
        fits_i32(s),
        fits_i32(o + s * (n - 1)),
        0 <= i < n,
    ensures
        fits_i32(o + s * i),
{
    assert(fits_i32(o + s * i)) by (nonlinear_arith)
        requires
            i32::MIN <= o <= i32::MAX,
            i32::MIN <= o + s * (n - 1) <= i32::MAX,
            0 <= i <= n - 1;
}

/// An index below `rows * columns` has a row below `rows`.
proof fn lemma_row_bound(i: int, columns: int, rows: int)
    requires
        columns >= 1,
        0 <= i < rows * columns,
    ensures
        i / columns < rows,
{
    lemma_fundamental_div_mod(i, columns);
    let q = i / columns;
    let m = i % columns;
    assert(q < rows) by (nonlinear_arith)
        requires
            columns >= 1,
            i == columns * q + m,
            0 <= m,
            i < rows * columns;
}

/// Cell `k` of `n` equal cells cut from a length of `total` starts within it.
proof fn lemma_cell_within(k: int, n: int, total: int)
    requires
        0 <= k < n,
        total >= 0,
    ensures
        0 <= total / n <= total,
        0 <= k * (total / n) <= total,
{
    lemma_fundamental_div_mod(total, n);
    let w = total / n;
    let m = total % n;
    assert(0 <= w <= total && 0 <= k * w <= total) by (nonlinear_arith)
        requires
            0 <= k < n,
            total == n * w + m,
            0 <= m < n,
            total >= 0;
}

proof fn lemma_i32_product(a: int, b: int)
    requires
        fits_i32(a),
        0 <= b <= i32::MAX,
    ensures
        -0x4000_0000_0000_0000 <= a * b <= 0x4000_0000_0000_0000,
{
    assert(-0x4000_0000_0000_0000 <= a * b <= 0x4000_0000_0000_0000) by (nonlinear_arith)
        requires -0x8000_0000 <= a <= 0x7fff_ffff, 0 <= b <= 0x7fff_ffff;
}

/// For a positive `a`: `a * b <= m` exactly when `b <= m / a`.
proof fn lemma_product_bound(a: int, b: int, m: int)
    requires
        a >= 1,
        b >= 0,
        m >= 0,
    ensures
        (a * b <= m) == (b <= m / a),
{
    assert((a * b <= m) == (b <= m / a)) by (nonlinear_arith)
        requires a >= 1, b >= 0, m >= 0;
}

} // verus!
