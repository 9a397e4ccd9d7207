//! 8-bit-per-pixel surfaces with a clipping rectangle.
use vstd::prelude::*;

verus! {

/// An 8bpp surface: `height` rows of `row_stride` bytes, of which the first
/// `width` are pixels, plus the rectangle that drawing is clipped to
/// (`clip_left..clip_right` by `clip_top..clip_bottom`).
pub struct PixelGrid {
    pub data: Vec<u8>,
    pub width: u32,
    pub height: u32,
    pub row_stride: u32,
    pub clip_left: u32,
    pub clip_top: u32,
    pub clip_right: u32,
    pub clip_bottom: u32,
}

/// `w` rounded up to a multiple of four.
pub open spec fn stride_for(w: int) -> int {
    w + 3 - (w + 3) % 4
}

impl PixelGrid {
    /// Well-formedness: the buffer holds exactly `height` rows, every row
    /// holds the pixels of the row, and the clip rectangle lies inside the
    /// surface.
    pub open spec fn wf(&self) -> bool {
        &&& self.width <= self.row_stride
        &&& self.data@.len() == self.row_stride * self.height
        &&& self.clip_left <= self.clip_right <= self.width
        &&& self.clip_top <= self.clip_bottom <= self.height
    }

    /// A zero-filled surface of the given size whose rows are padded to a
    /// multiple of four bytes; the clip rectangle covers the whole surface.
    pub fn new(width: u32, height: u32) -> (g: PixelGrid)
        requires
            width + 3 <= u32::MAX,
            stride_for(width as int) * height <= usize::MAX,
        ensures
            g.wf(),
            g.width == width,
            g.height == height,
            g.row_stride == stride_for(width as int),
            g.clip_left == 0,
            g.clip_top == 0,
            g.clip_right == width,
            g.clip_bottom == height,
            forall|i: int| 0 <= i < g.data@.len() ==> g.data@[i] == 0u8,
    {
        let w3: u32 = width + 3;
        let row_stride: u32 = w3 & !3u32;
        assert(w3 & !3u32 == w3 - w3 % 4) by (bit_vector);
        let n: usize = (row_stride as usize) * (height as usize);
        let data: Vec<u8> = vec![0u8; n];
        PixelGrid {
            data,
            width,
            height,
            row_stride,
            clip_left: 0,
            clip_top: 0,
            clip_right: width,
            clip_bottom: height,
        }
    }
}

} // verus!
