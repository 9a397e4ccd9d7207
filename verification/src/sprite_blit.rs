//! Sprite blitting onto 8bpp and 1bpp surfaces.
use vstd::prelude::*;

use crate::pixel_grid::PixelGrid;

verus! {

/// Source surface of a blit: `height` rows of `row_stride` bytes.
pub struct BlitSource<'a> {
    pub data: &'a [u8],
    pub width: u32,
    pub height: u32,
    pub row_stride: u32,
}

impl<'a> BlitSource<'a> {
    /// The buffer holds `height` rows of `row_stride` bytes, each with at
    /// least `width` pixels.
    pub open spec fn wf(&self) -> bool {
        &&& self.width <= self.row_stride
        &&& self.row_stride * self.height <= self.data@.len()
    }

    /// A source that reads the pixels of `grid`.
    pub fn from_grid(grid: &'a PixelGrid) -> (s: BlitSource<'a>)
        ensures
            s.data@ == grid.data@,
            s.width == grid.width,
            s.height == grid.height,
            s.row_stride == grid.row_stride,
    {
        BlitSource {
            data: grid.data.as_slice(),
            width: grid.width,
            height: grid.height,
            row_stride: grid.row_stride,
        }
    }
}

/// Orientation of a blit (high 16 bits of the blit flags).
#[derive(Debug, Clone, Copy, PartialEq, Eq, Structural)]
pub enum BlitOrientation {
    Normal,
    MirrorX,
    MirrorY,
    MirrorXY,
    Rotate90,
    Rotate90MirrorX,
    Rotate90MirrorY,
    Rotate90MirrorXY,
}

/// The orientation selected by the value `h` of the high half of the flags:
/// codes 0 to 7 in order, codes 8 to 15 the same orientations in reverse
/// order, anything else `Normal`.
pub open spec fn orientation_of(h: u32) -> BlitOrientation {
    if h == 0 || h == 11 {
        BlitOrientation::Normal
    } else if h == 1 || h == 10 {
        BlitOrientation::MirrorX
    } else if h == 2 || h == 9 {
        BlitOrientation::MirrorY
    } else if h == 3 || h == 8 {
        BlitOrientation::MirrorXY
    } else if h == 4 || h == 15 {
        BlitOrientation::Rotate90
    } else if h == 5 || h == 14 {
        BlitOrientation::Rotate90MirrorX
    } else if h == 6 || h == 13 {
        BlitOrientation::Rotate90MirrorY
    } else if h == 7 || h == 12 {
        BlitOrientation::Rotate90MirrorXY
    } else {
        BlitOrientation::Normal
    }
}

impl BlitOrientation {
    pub fn from_flags(flags: u32) -> (o: Self)
        ensures
            o == orientation_of((flags >> 16u32) & 0xFFFFu32),
    {
        let h: u32 = (flags >> 16u32) & 0xFFFFu32;
        if h == 0 || h == 11 {
            BlitOrientation::Normal
        } else if h == 1 || h == 10 {
            BlitOrientation::MirrorX
        } else if h == 2 || h == 9 {
            BlitOrientation::MirrorY
        } else if h == 3 || h == 8 {
            BlitOrientation::MirrorXY
        } else if h == 4 || h == 15 {
            BlitOrientation::Rotate90
        } else if h == 5 || h == 14 {
            BlitOrientation::Rotate90MirrorX
        } else if h == 6 || h == 13 {
            BlitOrientation::Rotate90MirrorY
        } else if h == 7 || h == 12 {
            BlitOrientation::Rotate90MirrorXY
        } else {
            BlitOrientation::Normal
        }
    }
}

/// Blend mode of a blit (low 16 bits of the blit flags).
#[derive(Debug, Clone, Copy, PartialEq, Eq, Structural)]
pub enum BlitBlend {
    Copy,
    ColorTable,
    Additive,
    Subtractive,
}

/// The blend selected by the value `l` of the low half of the flags.
pub open spec fn blend_of(l: u32) -> BlitBlend {
    if l == 1 {
        BlitBlend::ColorTable
    } else if l == 2 {
        BlitBlend::Additive
    } else if l == 3 {
        BlitBlend::Subtractive
    } else {
        BlitBlend::Copy
    }
}

impl BlitBlend {
    pub fn from_flags(flags: u32) -> (b: Self)
        ensures
            b == blend_of(flags & 0xFFFFu32),
    {
        let l: u32 = flags & 0xFFFFu32;
        if l == 0 {
            BlitBlend::Copy
        } else if l == 1 {
            BlitBlend::ColorTable
        } else if l == 2 {
            BlitBlend::Additive
        } else if l == 3 {
            BlitBlend::Subtractive
        } else {
            BlitBlend::Copy
        }
    }
}

/// Entry `p` of the colour table, or `p` itself without a table.
pub open spec fn table_lookup(table: Option<&[u8; 256]>, p: u8) -> u8 {
    match table {
        Some(t) => t@[p as int],
        None => p,
    }
}

/// The pixel that a blend leaves where the source pixel is `s` and the
/// destination pixel was `d`. Source pixel 0 is transparent for all blends
/// but `Copy`; `Additive` only draws over non-zero destination pixels and
/// `Subtractive` only over zero ones.
pub open spec fn blend_pixel(blend: BlitBlend, table: Option<&[u8; 256]>, s: u8, d: u8) -> u8 {
    match blend {
        BlitBlend::Copy => s,
        BlitBlend::ColorTable => if s != 0 {
            table_lookup(table, s)
        } else {
            d
        },
        BlitBlend::Additive => if s != 0 && d != 0 {
            s
        } else {
            d
        },
        BlitBlend::Subtractive => if s != 0 && d == 0 {
            s
        } else {
            d
        },
    }
}

/// What each blend of a rectangle blit leaves where the source pixel is
/// `s` and the destination pixel `d`: `Copy` always draws `s`;
/// `ColorTable` draws a non-zero `s` through the table (as itself without
/// one); `Additive` draws a non-zero `s` over a non-zero `d`, `Subtractive`
/// over a zero `d`; everywhere else `d` stays.
pub proof fn lemma_blend_modes(table: Option<&[u8; 256]>, s: u8, d: u8)
    ensures
        blend_pixel(BlitBlend::Copy, table, s, d) == s,
        blend_pixel(BlitBlend::ColorTable, table, s, d) == (if s == 0 {
            d
        } else {
            match table {
                Some(t) => t@[s as int],
                None => s,
            }
        }),
        blend_pixel(BlitBlend::Additive, table, s, d) == (if s != 0 && d != 0 {
            s
        } else {
            d
        }),
        blend_pixel(BlitBlend::Subtractive, table, s, d) == (if s != 0 && d == 0 {
            s
        } else {
            d
        }),
{
}

/// The flag codes of the orientations: 0 to 7 select `Normal`, `MirrorX`,
/// `MirrorY`, `MirrorXY`, `Rotate90`, `Rotate90MirrorX`, `Rotate90MirrorY`
/// and `Rotate90MirrorXY`; 8 to 11 select the mirrors again in reverse
/// order (`11 - h`), 12 to 15 the rotations in reverse order (`19 - h`),
/// and every larger code `Normal`. The blend codes are 1 `ColorTable`,
/// 2 `Additive`, 3 `Subtractive`, anything else `Copy`.
pub proof fn lemma_flag_codes(h: u32)
    ensures
        orientation_of(0) == BlitOrientation::Normal,
        orientation_of(1) == BlitOrientation::MirrorX,
        orientation_of(2) == BlitOrientation::MirrorY,
        orientation_of(3) == BlitOrientation::MirrorXY,
        orientation_of(4) == BlitOrientation::Rotate90,
        orientation_of(5) == BlitOrientation::Rotate90MirrorX,
        orientation_of(6) == BlitOrientation::Rotate90MirrorY,
        orientation_of(7) == BlitOrientation::Rotate90MirrorXY,
        8 <= h <= 11 ==> orientation_of(h) == orientation_of((11 - h) as u32),
        12 <= h <= 15 ==> orientation_of(h) == orientation_of((19 - h) as u32),
        h >= 16 ==> orientation_of(h) == BlitOrientation::Normal,
        blend_of(1) == BlitBlend::ColorTable,
        blend_of(2) == BlitBlend::Additive,
        blend_of(3) == BlitBlend::Subtractive,
        (h == 0 || h >= 4) ==> blend_of(h) == BlitBlend::Copy,
{
}

/// The orientations as reflections of the plain mapping: pixel `(u, v)` of
/// the destination shows source `(src_x + u, src_y + v)` when drawn
/// normally; `MirrorX` reflects the columns (`u` becomes `width - 1 - u`),
/// `MirrorY` the rows, `MirrorXY` both; the rotations read the source
/// transposed, `(src_y + u, src_x + v)`, with the same reflections.
pub proof fn lemma_orientations(src_x: int, src_y: int, width: int, height: int, u: int, v: int)
    ensures
        oriented_source(BlitOrientation::Normal, src_x, src_y, width, height, u, v) == (src_x + u, src_y
            + v),
        oriented_source(BlitOrientation::MirrorX, src_x, src_y, width, height, u, v) == oriented_source(
            BlitOrientation::Normal,
            src_x,
            src_y,
            width,
            height,
            width - 1 - u,
            v,
        ),
        oriented_source(BlitOrientation::MirrorY, src_x, src_y, width, height, u, v) == oriented_source(
            BlitOrientation::Normal,
            src_x,
            src_y,
            width,
            height,
            u,
            height - 1 - v,
        ),
        oriented_source(BlitOrientation::MirrorXY, src_x, src_y, width, height, u, v)
            == oriented_source(
            BlitOrientation::Normal,
            src_x,
            src_y,
            width,
            height,
            width - 1 - u,
            height - 1 - v,
        ),
        oriented_source(BlitOrientation::Rotate90, src_x, src_y, width, height, u, v) == (src_y + u, src_x
            + v),
        oriented_source(BlitOrientation::Rotate90MirrorX, src_x, src_y, width, height, u, v)
            == oriented_source(
            BlitOrientation::Rotate90,
            src_x,
            src_y,
            width,
            height,
            width - 1 - u,
            v,
        ),
        oriented_source(BlitOrientation::Rotate90MirrorY, src_x, src_y, width, height, u, v)
            == oriented_source(
            BlitOrientation::Rotate90,
            src_x,
            src_y,
            width,
            height,
            u,
            height - 1 - v,
        ),
        oriented_source(BlitOrientation::Rotate90MirrorXY, src_x, src_y, width, height, u, v)
            == oriented_source(
            BlitOrientation::Rotate90,
            src_x,
            src_y,
            width,
            height,
            width - 1 - u,
            height - 1 - v,
        ),
{
}

fn blend_value(blend: BlitBlend, table: Option<&[u8; 256]>, s: u8, d: u8) -> (r: u8)
    ensures
        r == blend_pixel(blend, table, s, d),
{
    match blend {
        BlitBlend::Copy => s,
        BlitBlend::ColorTable => {
            if s != 0 {
                match table {
                    Some(t) => t[s as usize],
                    None => s,
                }
            } else {
                d
            }
        },
        BlitBlend::Additive => if s != 0 && d != 0 {
            s
        } else {
            d
        },
        BlitBlend::Subtractive => if s != 0 && d == 0 {
            s
        } else {
            d
        },
    }
}

/// Column and row of the source pixel that the pixel at offset `(u, v)` of
/// a `width` x `height` destination rectangle shows when the source
/// rectangle starts at `(src_x, src_y)` and is drawn with orientation `o`.
/// The rotated orientations read the source transposed: `src_x` then names
/// the first source row and `src_y` the first source column.
pub open spec fn oriented_source(
    o: BlitOrientation,
    src_x: int,
    src_y: int,
    width: int,
    height: int,
    u: int,
    v: int,
) -> (int, int) {
    match o {
        BlitOrientation::Normal => (src_x + u, src_y + v),
        BlitOrientation::MirrorX => (src_x + width - 1 - u, src_y + v),
        BlitOrientation::MirrorY => (src_x + u, src_y + height - 1 - v),
        BlitOrientation::MirrorXY => (src_x + width - 1 - u, src_y + height - 1 - v),
        BlitOrientation::Rotate90 => (src_y + u, src_x + v),
        BlitOrientation::Rotate90MirrorX => (src_y + width - 1 - u, src_x + v),
        BlitOrientation::Rotate90MirrorY => (src_y + u, src_x + height - 1 - v),
        BlitOrientation::Rotate90MirrorXY => (src_y + width - 1 - u, src_x + height - 1 - v),
    }
}

/// A source position `(column, row)` that can be read: both coordinates are
/// non-negative 32-bit values and the byte lies inside the buffer.
pub open spec fn src_ok(src: Seq<u8>, stride: int, pos: (int, int)) -> bool {
    &&& 0 <= pos.0 <= i32::MAX
    &&& 0 <= pos.1 <= i32::MAX
    &&& pos.1 * stride + pos.0 < src.len()
}

/// The source byte at `pos`.
pub open spec fn src_at(src: Seq<u8>, stride: int, pos: (int, int)) -> u8 {
    src[pos.1 * stride + pos.0]
}

pub open spec fn imax(a: int, b: int) -> int {
    if a >= b {
        a
    } else {
        b
    }
}

pub open spec fn imin(a: int, b: int) -> int {
    if a <= b {
        a
    } else {
        b
    }
}

/// The clip rectangle of `g` as `(left, top, right, bottom)`.
pub open spec fn clip_rect(g: PixelGrid) -> (int, int, int, int) {
    (g.clip_left as int, g.clip_top as int, g.clip_right as int, g.clip_bottom as int)
}

/// The part of the rectangle at `(x0, y0)` of size `w` x `h` that lies
/// inside the clip rectangle `clip`: `(left, top, right, bottom)`.
pub open spec fn visible_rect(clip: (int, int, int, int), x0: int, y0: int, w: int, h: int) -> (
    int,
    int,
    int,
    int,
) {
    (imax(x0, clip.0), imax(y0, clip.1), imin(x0 + w, clip.2), imin(y0 + h, clip.3))
}

/// Whether `(x, y)` lies in the rectangle `r` = `(left, top, right, bottom)`.
pub open spec fn in_rect(r: (int, int, int, int), x: int, y: int) -> bool {
    r.0 <= x < r.2 && r.1 <= y < r.3
}

/// The source position drawn at destination pixel `(x, y)` by a blit of the
/// source rectangle at `(src_x, src_y)` to `(dst_x, dst_y)`. Only the
/// colour-table blend honours the orientation.
pub open spec fn rect_source(
    o: BlitOrientation,
    blend: BlitBlend,
    src_x: int,
    src_y: int,
    dst_x: int,
    dst_y: int,
    width: int,
    height: int,
    x: int,
    y: int,
) -> (int, int) {
    if blend == BlitBlend::ColorTable {
        oriented_source(o, src_x, src_y, width, height, x - dst_x, y - dst_y)
    } else {
        (src_x + x - dst_x, src_y + y - dst_y)
    }
}

/// The value of byte `k` of a destination buffer with rows of `stride`
/// bytes after a rectangle blit that covers `vis` (nothing if `vis` is
/// empty), where it held `old` before.
pub open spec fn rect_blit_value(
    old: Seq<u8>,
    stride: int,
    src: Seq<u8>,
    src_stride: int,
    vis: (int, int, int, int),
    o: BlitOrientation,
    blend: BlitBlend,
    table: Option<&[u8; 256]>,
    src_x: int,
    src_y: int,
    dst_x: int,
    dst_y: int,
    width: int,
    height: int,
    k: int,
) -> u8 {
    let x = k % stride;
    let y = k / stride;
    if in_rect(vis, x, y) {
        blend_pixel(
            blend,
            table,
            src_at(src, src_stride, rect_source(o, blend, src_x, src_y, dst_x, dst_y, width, height, x, y)),
            old[k],
        )
    } else {
        old[k]
    }
}

/// Every source pixel that a blit of the visible part `vis` reads can be
/// read.
pub open spec fn rect_reads_ok(
    src: Seq<u8>,
    src_stride: int,
    vis: (int, int, int, int),
    o: BlitOrientation,
    blend: BlitBlend,
    src_x: int,
    src_y: int,
    dst_x: int,
    dst_y: int,
    width: int,
    height: int,
) -> bool {
    forall|x: int, y: int|
        #![trigger rect_source(o, blend, src_x, src_y, dst_x, dst_y, width, height, x, y)]
        in_rect(vis, x, y) ==> src_ok(
            src,
            src_stride,
            rect_source(o, blend, src_x, src_y, dst_x, dst_y, width, height, x, y),
        )
}

/// A walk over a `w` x `h` region of the destination whose top-left pixel
/// is `(left, top)`; it reads the source from `(sx0, sy0)` in steps of
/// `sxs` and `sys` (each 1 or -1), with rows and columns exchanged when
/// `swap` holds.
struct Walk {
    left: i64,
    top: i64,
    w: i64,
    h: i64,
    sx0: i64,
    sy0: i64,
    sxs: i64,
    sys: i64,
    swap: bool,
}

spec fn step(s: int, c: int) -> int {
    if s == 1 {
        c
    } else {
        -c
    }
}

/// Source position read at offset `(cx, cy)` of the walk.
spec fn walk_pos(wk: Walk, cx: int, cy: int) -> (int, int) {
    if wk.swap {
        (wk.sy0 + step(wk.sys as int, cx), wk.sx0 + step(wk.sxs as int, cy))
    } else {
        (wk.sx0 + step(wk.sxs as int, cx), wk.sy0 + step(wk.sys as int, cy))
    }
}

/// Byte `k` after the walk has handled its rows before `dy` and the first
/// `dx` pixels of row `dy`.
spec fn walk_value(
    old: Seq<u8>,
    stride: int,
    src: Seq<u8>,
    src_stride: int,
    wk: Walk,
    blend: BlitBlend,
    table: Option<&[u8; 256]>,
    dy: int,
    dx: int,
    k: int,
) -> u8 {
    let cx = k % stride - wk.left;
    let cy = k / stride - wk.top;
    if 0 <= cx < wk.w && 0 <= cy < wk.h && (cy < dy || (cy == dy && cx < dx)) {
        blend_pixel(blend, table, src_at(src, src_stride, walk_pos(wk, cx, cy)), old[k])
    } else {
        old[k]
    }
}

proof fn lemma_row_col(i: int, y: int, x: int, stride: int)
    requires
        0 <= x < stride,
        i == y * stride + x,
    ensures
        i / stride == y,
        i % stride == x,
{
    vstd::arithmetic::div_mod::lemma_fundamental_div_mod_converse(i, stride, y, x);
}

proof fn lemma_index_in_bounds(y: int, x: int, stride: int, height: int)
    by (nonlinear_arith)
    requires
        0 <= y < height,
        0 <= x < stride,
    ensures
        0 <= y * stride + x < stride * height,
{
}

/// Draw the walk `wk` onto `dst`, combining each source pixel with the
/// destination pixel by `blend`.
fn blit_walk(
    dst: &mut PixelGrid,
    src: &BlitSource,
    wk: &Walk,
    blend: BlitBlend,
    table: Option<&[u8; 256]>,
)
    requires
        old(dst).wf(),
        0 <= wk.left,
        0 <= wk.top,
        1 <= wk.w,
        1 <= wk.h,
        wk.left + wk.w <= old(dst).width,
        wk.top + wk.h <= old(dst).height,
        wk.sxs == 1 || wk.sxs == -1,
        wk.sys == 1 || wk.sys == -1,
        forall|cx: int, cy: int|
            0 <= cx < wk.w && 0 <= cy < wk.h ==> src_ok(
                src.data@,
                src.row_stride as int,
                #[trigger] walk_pos(*wk, cx, cy),
            ),
    ensures
        final(dst).wf(),
        final(dst).width == old(dst).width,
        final(dst).height == old(dst).height,
        final(dst).row_stride == old(dst).row_stride,
        final(dst).clip_left == old(dst).clip_left,
        final(dst).clip_top == old(dst).clip_top,
        final(dst).clip_right == old(dst).clip_right,
        final(dst).clip_bottom == old(dst).clip_bottom,
        final(dst).data@.len() == old(dst).data@.len(),
        forall|k: int|
            0 <= k < old(dst).data@.len() ==> #[trigger] final(dst).data@[k] == walk_value(
                old(dst).data@,
                old(dst).row_stride as int,
                src.data@,
                src.row_stride as int,
                *wk,
                blend,
                table,
                wk.h as int,
                0,
                k,
            ),
{
    let ghost old_data = dst.data@;
    let ghost stride = dst.row_stride as int;
    let ghost ss = src.row_stride as int;
    proof {
        assert(walk_pos(*wk, 0, 0) == walk_pos(*wk, 0, 0));
    }
    let mut dy: i64 = 0;
    while dy < wk.h
        invariant
            0 <= dy <= wk.h,
            dst.wf(),
            dst.width == old(dst).width,
            dst.height == old(dst).height,
            dst.row_stride == old(dst).row_stride,
            dst.clip_left == old(dst).clip_left,
            dst.clip_top == old(dst).clip_top,
            dst.clip_right == old(dst).clip_right,
            dst.clip_bottom == old(dst).clip_bottom,
            old_data == old(dst).data@,
            stride == dst.row_stride,
            ss == src.row_stride,
            0 <= wk.left,
            0 <= wk.top,
            1 <= wk.w,
            1 <= wk.h,
            wk.left + wk.w <= dst.width,
            wk.top + wk.h <= dst.height,
            wk.sxs == 1 || wk.sxs == -1,
            wk.sys == 1 || wk.sys == -1,
            forall|cx: int, cy: int|
                0 <= cx < wk.w && 0 <= cy < wk.h ==> src_ok(
                    src.data@,
                    src.row_stride as int,
                    #[trigger] walk_pos(*wk, cx, cy),
                ),
            dst.data@.len() == old_data.len(),
            forall|k: int|
                0 <= k < old_data.len() ==> #[trigger] dst.data@[k] == walk_value(
                    old_data,
                    stride,
                    src.data@,
                    ss,
                    *wk,
                    blend,
                    table,
                    dy as int,
                    0,
                    k,
                ),
        decreases wk.h - dy,
    {
        let mut dx: i64 = 0;
        while dx < wk.w
            invariant
                0 <= dy < wk.h,
                0 <= dx <= wk.w,
                dst.wf(),
                dst.width == old(dst).width,
                dst.height == old(dst).height,
                dst.row_stride == old(dst).row_stride,
                dst.clip_left == old(dst).clip_left,
                dst.clip_top == old(dst).clip_top,
                dst.clip_right == old(dst).clip_right,
                dst.clip_bottom == old(dst).clip_bottom,
                old_data == old(dst).data@,
                stride == dst.row_stride,
                ss == src.row_stride,
                0 <= wk.left,
                0 <= wk.top,
                1 <= wk.w,
                1 <= wk.h,
                wk.left + wk.w <= dst.width,
                wk.top + wk.h <= dst.height,
                wk.sxs == 1 || wk.sxs == -1,
                wk.sys == 1 || wk.sys == -1,
                forall|cx: int, cy: int|
                    0 <= cx < wk.w && 0 <= cy < wk.h ==> src_ok(
                        src.data@,
                        src.row_stride as int,
                        #[trigger] walk_pos(*wk, cx, cy),
                    ),
                dst.data@.len() == old_data.len(),
                forall|k: int|
                    0 <= k < old_data.len() ==> #[trigger] dst.data@[k] == walk_value(
                        old_data,
                        stride,
                        src.data@,
                        ss,
                        *wk,
                        blend,
                        table,
                        dy as int,
                        dx as int,
                        k,
                    ),
            decreases wk.w - dx,
        {
            proof {
                assert(src_ok(src.data@, ss, walk_pos(*wk, dx as int, dy as int)));
            }
            let col: i64;
            let row: i64;
            if wk.swap {
                col = if wk.sys == 1 { wk.sy0 + dx } else { wk.sy0 - dx };
                row = if wk.sxs == 1 { wk.sx0 + dy } else { wk.sx0 - dy };
            } else {
                col = if wk.sxs == 1 { wk.sx0 + dx } else { wk.sx0 - dx };
                row = if wk.sys == 1 { wk.sy0 + dy } else { wk.sy0 - dy };
            }
            assert((col as int, row as int) == walk_pos(*wk, dx as int, dy as int));
            let src_len: usize = src.data.len();
            proof {
                assert(row as int * ss + col < src_len);
                assert(row as usize as int == row as int);
                assert(col as usize as int == col as int);
            }
            let si: usize = (row as usize) * (src.row_stride as usize) + (col as usize);
            let s: u8 = src.data[si];
            let y: i64 = wk.top + dy;
            let x: i64 = wk.left + dx;
            proof {
                lemma_index_in_bounds(y as int, x as int, stride, dst.height as int);
                lemma_row_col(y * stride + x, y as int, x as int, stride);
            }
            let dst_len: usize = dst.data.len();
            proof {
                assert(y as usize as int == y as int);
                assert(x as usize as int == x as int);
            }
            let di: usize = (y as usize) * (dst.row_stride as usize) + (x as usize);
            assert(di as int == y * stride + x);
            let d: u8 = dst.data[di];
            let v: u8 = blend_value(blend, table, s, d);
            let ghost before = dst.data@;
            dst.data[di] = v;
            proof {
                assert forall|k: int| 0 <= k < old_data.len() implies #[trigger] dst.data@[k]
                    == walk_value(
                    old_data,
                    stride,
                    src.data@,
                    ss,
                    *wk,
                    blend,
                    table,
                    dy as int,
                    dx + 1,
                    k,
                ) by {
                    vstd::arithmetic::div_mod::lemma_fundamental_div_mod(k, stride);
                    if k != di as int {
                        assert(before[k] == dst.data@[k]);
                        if k / stride == y as int && k % stride == x as int {
                            let yi = y as int;
                            assert(stride * yi == yi * stride) by (nonlinear_arith);
                            assert(k == stride * yi + x);
                        }
                    } else {
                        assert(k / stride == y as int);
                        assert(k % stride == x as int);
                        assert(before[k] == old_data[k]);
                        assert(dst.data@[k] == v);
                    }
                }
            }
            dx = dx + 1;
        }
        proof {
            assert forall|k: int| 0 <= k < old_data.len() implies #[trigger] dst.data@[k]
                == walk_value(old_data, stride, src.data@, ss, *wk, blend, table, dy + 1, 0, k) by {
                assert(dst.data@[k] == walk_value(
                    old_data,
                    stride,
                    src.data@,
                    ss,
                    *wk,
                    blend,
                    table,
                    dy as int,
                    wk.w as int,
                    k,
                ));
            }
        }
        dy = dy + 1;
    }
}

/// Source position `(column, row)` of the first visible pixel of an
/// oriented blit whose visible part starts at `(vis_left, vis_top)`, and the
/// steps and transposition with which the walk over the visible part reads
/// the source.
pub open spec fn adjusted_start(
    o: BlitOrientation,
    src_x: int,
    src_y: int,
    dst_x: int,
    dst_y: int,
    width: int,
    height: int,
    vis_left: int,
    vis_top: int,
) -> (int, int) {
    let cl = vis_left - dst_x;
    let ct = vis_top - dst_y;
    match o {
        BlitOrientation::Normal => (src_x + cl, src_y + ct),
        BlitOrientation::MirrorX => (src_x + width - 1 - cl, src_y + ct),
        BlitOrientation::MirrorY => (src_x + cl, src_y + height - 1 - ct),
        BlitOrientation::MirrorXY => (src_x + width - 1 - cl, src_y + height - 1 - ct),
        BlitOrientation::Rotate90 => (src_x + ct, src_y + cl),
        BlitOrientation::Rotate90MirrorX => (src_x + ct, src_y + width - 1 - cl),
        BlitOrientation::Rotate90MirrorY => (src_x + height - 1 - ct, src_y + cl),
        BlitOrientation::Rotate90MirrorXY => (src_x + height - 1 - ct, src_y + width - 1 - cl),
    }
}

/// Steps `(sx_step, sy_step)` and transposition of each orientation.
pub open spec fn spec_orientation_steps(o: BlitOrientation) -> (i32, i32, bool) {
    match o {
        BlitOrientation::Normal => (1i32, 1i32, false),
        BlitOrientation::MirrorX => (-1i32, 1i32, false),
        BlitOrientation::MirrorY => (1i32, -1i32, false),
        BlitOrientation::MirrorXY => (-1i32, -1i32, false),
        BlitOrientation::Rotate90 => (1i32, 1i32, true),
        BlitOrientation::Rotate90MirrorX => (1i32, -1i32, true),
        BlitOrientation::Rotate90MirrorY => (-1i32, 1i32, true),
        BlitOrientation::Rotate90MirrorXY => (-1i32, -1i32, true),
    }
}

fn adjust_source_for_clip(
    orientation: BlitOrientation,
    src_x: i32,
    src_y: i32,
    dst_x: i32,
    dst_y: i32,
    width: i32,
    height: i32,
    vis_left: i64,
    vis_top: i64,
) -> (r: (i64, i64))
    requires
        dst_x <= vis_left <= i32::MAX,
        dst_y <= vis_top <= i32::MAX,
    ensures
        (r.0 as int, r.1 as int) == adjusted_start(
            orientation,
            src_x as int,
            src_y as int,
            dst_x as int,
            dst_y as int,
            width as int,
            height as int,
            vis_left as int,
            vis_top as int,
        ),
{
    let clip_left: i64 = vis_left - dst_x as i64;
    let clip_top: i64 = vis_top - dst_y as i64;
    let sx: i64 = src_x as i64;
    let sy: i64 = src_y as i64;
    let w: i64 = width as i64;
    let h: i64 = height as i64;
    match orientation {
        BlitOrientation::Normal => (sx + clip_left, sy + clip_top),
        BlitOrientation::MirrorX => (sx + w - 1 - clip_left, sy + clip_top),
        BlitOrientation::MirrorY => (sx + clip_left, sy + h - 1 - clip_top),
        BlitOrientation::MirrorXY => (sx + w - 1 - clip_left, sy + h - 1 - clip_top),
        BlitOrientation::Rotate90 => (sx + clip_top, sy + clip_left),
        BlitOrientation::Rotate90MirrorX => (sx + clip_top, sy + w - 1 - clip_left),
        BlitOrientation::Rotate90MirrorY => (sx + h - 1 - clip_top, sy + clip_left),
        BlitOrientation::Rotate90MirrorXY => (sx + h - 1 - clip_top, sy + w - 1 - clip_left),
    }
}

fn orientation_steps(orientation: BlitOrientation) -> (r: (i32, i32, bool))
    ensures
        r == spec_orientation_steps(orientation),
{
    match orientation {
        BlitOrientation::Normal => (1, 1, false),
        BlitOrientation::MirrorX => (-1, 1, false),
        BlitOrientation::MirrorY => (1, -1, false),
        BlitOrientation::MirrorXY => (-1, -1, false),
        BlitOrientation::Rotate90 => (1, 1, true),
        BlitOrientation::Rotate90MirrorX => (1, -1, true),
        BlitOrientation::Rotate90MirrorY => (-1, 1, true),
        BlitOrientation::Rotate90MirrorXY => (-1, -1, true),
    }
}

/// The walk built from an orientation's start and steps reads, at each
/// offset of the visible part, the source position that the orientation
/// assigns to that destination pixel.
proof fn lemma_walk_matches_orientation(
    wk: Walk,
    o: BlitOrientation,
    src_x: int,
    src_y: int,
    dst_x: int,
    dst_y: int,
    width: int,
    height: int,
)
    requires
        (wk.sx0 as int, wk.sy0 as int) == adjusted_start(
            o,
            src_x,
            src_y,
            dst_x,
            dst_y,
            width,
            height,
            wk.left as int,
            wk.top as int,
        ),
        (wk.sxs as i32, wk.sys as i32, wk.swap) == spec_orientation_steps(o),
        wk.sxs == wk.sxs as i32,
        wk.sys == wk.sys as i32,
    ensures
        forall|cx: int, cy: int|
            #[trigger] walk_pos(wk, cx, cy) == oriented_source(
                o,
                src_x,
                src_y,
                width,
                height,
                wk.left + cx - dst_x,
                wk.top + cy - dst_y,
            ),
{
}

/// Blit the `width` x `height` rectangle of `src` at `(src_x, src_y)` to
/// `(dst_x, dst_y)` of `dst`, clipped to the clip rectangle of `dst`.
/// Returns whether any pixel was visible.
pub fn blit_sprite_rect(
    dst: &mut PixelGrid,
    src: &BlitSource,
    dst_x: i32,
    dst_y: i32,
    width: i32,
    height: i32,
    src_x: i32,
    src_y: i32,
    color_table: Option<&[u8; 256]>,
    orientation: BlitOrientation,
    blend: BlitBlend,
) -> (r: bool)
    requires
        old(dst).wf(),
        old(dst).clip_right <= i32::MAX,
        old(dst).clip_bottom <= i32::MAX,
        rect_reads_ok(
            src.data@,
            src.row_stride as int,
            visible_rect(clip_rect(*old(dst)), dst_x as int, dst_y as int, width as int, height as int),
            orientation,
            blend,
            src_x as int,
            src_y as int,
            dst_x as int,
            dst_y as int,
            width as int,
            height as int,
        ),
    ensures
        ({
            let vis = visible_rect(clip_rect(*old(dst)), dst_x as int, dst_y as int, width as int, height as int);
            &&& r == (width != 0 && height != 0 && vis.0 < vis.2 && vis.1 < vis.3)
            &&& final(dst).wf()
            &&& final(dst).width == old(dst).width
            &&& final(dst).height == old(dst).height
            &&& final(dst).row_stride == old(dst).row_stride
            &&& final(dst).clip_left == old(dst).clip_left
            &&& final(dst).clip_top == old(dst).clip_top
            &&& final(dst).clip_right == old(dst).clip_right
            &&& final(dst).clip_bottom == old(dst).clip_bottom
            &&& final(dst).data@.len() == old(dst).data@.len()
            &&& forall|k: int|
                0 <= k < old(dst).data@.len() ==> #[trigger] final(dst).data@[k] == rect_blit_value(
                    old(dst).data@,
                    old(dst).row_stride as int,
                    src.data@,
                    src.row_stride as int,
                    vis,
                    orientation,
                    blend,
                    color_table,
                    src_x as int,
                    src_y as int,
                    dst_x as int,
                    dst_y as int,
                    width as int,
                    height as int,
                    k,
                )
        }),
        final(dst).data@ == rect_blit_data(
            old(dst).data@,
            old(dst).row_stride as int,
            src.data@,
            src.row_stride as int,
            clip_rect(*old(dst)),
            dst_x as int,
            dst_y as int,
            width as int,
            height as int,
            src_x as int,
            src_y as int,
            color_table,
            orientation,
            blend,
        ),
{
    let ghost vis = visible_rect(clip_rect(*dst), dst_x as int, dst_y as int, width as int, height as int);
    let ghost old_data = dst.data@;
    let ghost stride = dst.row_stride as int;
    if width == 0 || height == 0 {
        return false;
    }
    let dst_right: i64 = dst_x as i64 + width as i64;
    let dst_bottom: i64 = dst_y as i64 + height as i64;
    let clip_left: i64 = dst.clip_left as i64;
    let clip_top: i64 = dst.clip_top as i64;
    let clip_right: i64 = dst.clip_right as i64;
    let clip_bottom: i64 = dst.clip_bottom as i64;
    if (dst_x as i64) >= clip_right || dst_right <= clip_left || (dst_y as i64) >= clip_bottom
        || dst_bottom <= clip_top {
        return false;
    }
    let vis_left: i64 = if (dst_x as i64) >= clip_left { dst_x as i64 } else { clip_left };
    let vis_right: i64 = if dst_right <= clip_right { dst_right } else { clip_right };
    let vis_top: i64 = if (dst_y as i64) >= clip_top { dst_y as i64 } else { clip_top };
    let vis_bottom: i64 = if dst_bottom <= clip_bottom { dst_bottom } else { clip_bottom };
    if vis_left >= vis_right || vis_top >= vis_bottom {
        return false;
    }
    assert(vis == (vis_left as int, vis_top as int, vis_right as int, vis_bottom as int));
    let walk_orientation = if blend == BlitBlend::ColorTable {
        orientation
    } else {
        BlitOrientation::Normal
    };
    let start = adjust_source_for_clip(
        walk_orientation,
        src_x,
        src_y,
        dst_x,
        dst_y,
        width,
        height,
        vis_left,
        vis_top,
    );
    let steps = orientation_steps(walk_orientation);
    let wk = Walk {
        left: vis_left,
        top: vis_top,
        w: vis_right - vis_left,
        h: vis_bottom - vis_top,
        sx0: start.0,
        sy0: start.1,
        sxs: steps.0 as i64,
        sys: steps.1 as i64,
        swap: steps.2,
    };
    proof {
        lemma_walk_matches_orientation(
            wk,
            walk_orientation,
            src_x as int,
            src_y as int,
            dst_x as int,
            dst_y as int,
            width as int,
            height as int,
        );
        assert forall|cx: int, cy: int| 0 <= cx < wk.w && 0 <= cy < wk.h implies src_ok(
            src.data@,
            src.row_stride as int,
            #[trigger] walk_pos(wk, cx, cy),
        ) by {
            assert(rect_source(
                orientation,
                blend,
                src_x as int,
                src_y as int,
                dst_x as int,
                dst_y as int,
                width as int,
                height as int,
                wk.left + cx,
                wk.top + cy,
            ) == walk_pos(wk, cx, cy));
            assert(in_rect(vis, wk.left + cx, wk.top + cy));
        }
    }
    blit_walk(dst, src, &wk, blend, color_table);
    proof {
        assert forall|k: int| 0 <= k < old_data.len() implies #[trigger] dst.data@[k]
            == rect_blit_value(
            old_data,
            stride,
            src.data@,
            src.row_stride as int,
            vis,
            orientation,
            blend,
            color_table,
            src_x as int,
            src_y as int,
            dst_x as int,
            dst_y as int,
            width as int,
            height as int,
            k,
        ) by {
            let cx = k % stride - wk.left;
            let cy = k / stride - wk.top;
            assert(walk_pos(wk, cx, cy) == rect_source(
                orientation,
                blend,
                src_x as int,
                src_y as int,
                dst_x as int,
                dst_y as int,
                width as int,
                height as int,
                k % stride,
                k / stride,
            ));
        }
    }
    true
}

/// Whether the checkerboard of a stippled blit draws pixel `(x, y)`.
pub open spec fn stipple_on(x: int, y: int, stipple_mode: u32, parity: u32) -> bool {
    ((x as u32) ^ parity ^ (y as u32) ^ stipple_mode) & 1u32 != 0u32
}

/// The source pixel that a stippled blit writes at destination pixel
/// `(x, y)`, if any: the pixel lies in the clip rectangle and in the
/// destination rectangle, the checkerboard draws it, its source position
/// lies inside the source surface, and the source pixel is not 0.
pub open spec fn stipple_source(
    src: Seq<u8>,
    src_width: int,
    src_height: int,
    src_stride: int,
    clip: (int, int, int, int),
    dst_x: int,
    dst_y: int,
    width: int,
    height: int,
    src_x: int,
    src_y: int,
    stipple_mode: u32,
    parity: u32,
    x: int,
    y: int,
) -> Option<u8> {
    let sx = src_x + (x - dst_x);
    let sy = src_y + (y - dst_y);
    if in_rect(clip, x, y) && dst_x <= x < dst_x + width && dst_y <= y < dst_y + height
        && stipple_on(x, y, stipple_mode, parity) && 0 <= sx < src_width && 0 <= sy < src_height
        && src[sy * src_stride + sx] != 0 {
        Some(src[sy * src_stride + sx])
    } else {
        None
    }
}

/// Byte `k` of the destination after a stippled blit has handled the rows
/// before `row` and the first `col` pixels of row `row`.
pub open spec fn stipple_value(
    old: Seq<u8>,
    stride: int,
    src: Seq<u8>,
    src_width: int,
    src_height: int,
    src_stride: int,
    clip: (int, int, int, int),
    dst_x: int,
    dst_y: int,
    width: int,
    height: int,
    src_x: int,
    src_y: int,
    stipple_mode: u32,
    parity: u32,
    row: int,
    col: int,
    k: int,
) -> u8 {
    let x = k % stride;
    let y = k / stride;
    let done = y - dst_y < row || (y - dst_y == row && x - dst_x < col);
    match stipple_source(
        src,
        src_width,
        src_height,
        src_stride,
        clip,
        dst_x,
        dst_y,
        width,
        height,
        src_x,
        src_y,
        stipple_mode,
        parity,
        x,
        y,
    ) {
        Some(p) => if done {
            p
        } else {
            old[k]
        },
        None => old[k],
    }
}

/// Blit the `width` x `height` rectangle of `src` at `(src_x, src_y)` to
/// `(dst_x, dst_y)` through a checkerboard: a pixel is drawn where the
/// lowest bit of `x ^ parity ^ y ^ stipple_mode` is set, inside the clip
/// rectangle and the source surface, and where the source pixel is not 0.
pub fn blit_stippled(
    dst: &mut PixelGrid,
    src: &BlitSource,
    dst_x: i32,
    dst_y: i32,
    width: i32,
    height: i32,
    src_x: i32,
    src_y: i32,
    stipple_mode: u32,
    parity: u32,
)
    requires
        old(dst).wf(),
        src.wf(),
    ensures
        final(dst).wf(),
        final(dst).width == old(dst).width,
        final(dst).height == old(dst).height,
        final(dst).row_stride == old(dst).row_stride,
        clip_rect(*final(dst)) == clip_rect(*old(dst)),
        final(dst).data@.len() == old(dst).data@.len(),
        forall|k: int|
            0 <= k < old(dst).data@.len() ==> #[trigger] final(dst).data@[k] == stipple_value(
                old(dst).data@,
                old(dst).row_stride as int,
                src.data@,
                src.width as int,
                src.height as int,
                src.row_stride as int,
                clip_rect(*old(dst)),
                dst_x as int,
                dst_y as int,
                width as int,
                height as int,
                src_x as int,
                src_y as int,
                stipple_mode,
                parity,
                height as int,
                0,
                k,
            ),
{
    let ghost old_data = dst.data@;
    let ghost stride = dst.row_stride as int;
    let ghost clip = clip_rect(*dst);
    if width <= 0 || height <= 0 {
        proof {
            assert forall|k: int| 0 <= k < old_data.len() implies #[trigger] dst.data@[k]
                == stipple_value(
                old_data,
                stride,
                src.data@,
                src.width as int,
                src.height as int,
                src.row_stride as int,
                clip,
                dst_x as int,
                dst_y as int,
                width as int,
                height as int,
                src_x as int,
                src_y as int,
                stipple_mode,
                parity,
                height as int,
                0,
                k,
            ) by {}
        }
        return ;
    }
    let src_offset_x: i64 = src_x as i64 - dst_x as i64;
    let clip_left: i64 = dst.clip_left as i64;
    let clip_top: i64 = dst.clip_top as i64;
    let clip_right: i64 = dst.clip_right as i64;
    let clip_bottom: i64 = dst.clip_bottom as i64;
    let mut row: i64 = 0;
    while row < height as i64
        invariant
            0 <= row <= height,
            0 < width,
            dst.wf(),
            src.wf(),
            dst.width == old(dst).width,
            dst.height == old(dst).height,
            dst.row_stride == old(dst).row_stride,
            clip_rect(*dst) == clip,
            clip == clip_rect(*old(dst)),
            clip_left == clip.0,
            clip_top == clip.1,
            clip_right == clip.2,
            clip_bottom == clip.3,
            src_offset_x == src_x - dst_x,
            old_data == old(dst).data@,
            stride == dst.row_stride,
            dst.data@.len() == old_data.len(),
            forall|k: int|
                0 <= k < old_data.len() ==> #[trigger] dst.data@[k] == stipple_value(
                    old_data,
                    stride,
                    src.data@,
                    src.width as int,
                    src.height as int,
                    src.row_stride as int,
                    clip,
                    dst_x as int,
                    dst_y as int,
                    width as int,
                    height as int,
                    src_x as int,
                    src_y as int,
                    stipple_mode,
                    parity,
                    row as int,
                    0,
                    k,
                ),
        decreases height - row,
    {
        let sy: i64 = src_y as i64 + row;
        let dy: i64 = (dst_y as i64 - src_y as i64) + sy;
        let mut col: i64 = 0;
        while col < width as i64
            invariant
                0 <= row < height,
                0 <= col <= width,
                0 < width,
                sy == src_y + row,
                dy == dst_y + row,
                dst.wf(),
                src.wf(),
                dst.width == old(dst).width,
                dst.height == old(dst).height,
                dst.row_stride == old(dst).row_stride,
                clip_rect(*dst) == clip,
                clip == clip_rect(*old(dst)),
                clip_left == clip.0,
                clip_top == clip.1,
                clip_right == clip.2,
                clip_bottom == clip.3,
                src_offset_x == src_x - dst_x,
                old_data == old(dst).data@,
                stride == dst.row_stride,
                dst.data@.len() == old_data.len(),
                forall|k: int|
                    0 <= k < old_data.len() ==> #[trigger] dst.data@[k] == stipple_value(
                        old_data,
                        stride,
                        src.data@,
                        src.width as int,
                        src.height as int,
                        src.row_stride as int,
                        clip,
                        dst_x as int,
                        dst_y as int,
                        width as int,
                        height as int,
                        src_x as int,
                        src_y as int,
                        stipple_mode,
                        parity,
                        row as int,
                        col as int,
                        k,
                    ),
            decreases width - col,
        {
            let dx: i64 = dst_x as i64 + col;
            let ghost before = dst.data@;
            let mut wrote: bool = false;
            if dy >= clip_top && dy < clip_bottom && dx >= clip_left && dx < clip_right {
                if ((dx as u32) ^ parity ^ (dy as u32) ^ stipple_mode) & 1u32 != 0u32 {
                    let sx: i64 = src_offset_x + dx;
                    if sx >= 0 && sx < src.width as i64 && sy >= 0 && sy < src.height as i64 {
                        proof {
                            lemma_index_in_bounds(sy as int, sx as int, src.row_stride as int, src.height as int);
                        }
                        let src_len: usize = src.data.len();
                        proof {
                            assert(sy as usize as int == sy as int);
                            assert(sx as usize as int == sx as int);
                        }
                        let si: usize = (sy as usize) * (src.row_stride as usize) + (sx as usize);
                        let pixel: u8 = src.data[si];
                        if pixel != 0 {
                            proof {
                                lemma_index_in_bounds(dy as int, dx as int, stride, dst.height as int);
                                lemma_row_col(dy * stride + dx, dy as int, dx as int, stride);
                            }
                            let dst_len: usize = dst.data.len();
                            proof {
                                assert(dy as usize as int == dy as int);
                                assert(dx as usize as int == dx as int);
                            }
                            let di: usize = (dy as usize) * (dst.row_stride as usize) + (dx as usize);
                            assert(di as int == dy * stride + dx);
                            dst.data[di] = pixel;
                            wrote = true;
                        }
                    }
                }
            }
            proof {
                assert forall|k: int| 0 <= k < old_data.len() implies #[trigger] dst.data@[k]
                    == stipple_value(
                    old_data,
                    stride,
                    src.data@,
                    src.width as int,
                    src.height as int,
                    src.row_stride as int,
                    clip,
                    dst_x as int,
                    dst_y as int,
                    width as int,
                    height as int,
                    src_x as int,
                    src_y as int,
                    stipple_mode,
                    parity,
                    row as int,
                    col + 1,
                    k,
                ) by {
                    vstd::arithmetic::div_mod::lemma_fundamental_div_mod(k, stride);
                    let yi = k / stride;
                    let xi = k % stride;
                    if yi == dy as int && xi == dx as int {
                        assert(stride * yi == yi * stride) by (nonlinear_arith);
                        assert(k == dy * stride + dx);
                    }
                }
            }
            col = col + 1;
        }
        row = row + 1;
    }
}

/// The left edge of the first tile of a tiling whose tiles are
/// `tile_width` apart and include one at `initial_x`: the tile position in
/// `clip_left - tile_width + 1 ..= clip_left`.
pub open spec fn tile_start(initial_x: int, clip_left: int, tile_width: int) -> int {
    clip_left - (clip_left - initial_x) % tile_width
}

/// The buffer `data` (rows of `stride` bytes, clip rectangle `clip`) after
/// one blit of the `w` x `h` source rectangle at `(src_x, src_y)` to
/// `(x, y)`: what `blit_sprite_rect` leaves in the destination.
pub open spec fn rect_blit_data(
    data: Seq<u8>,
    stride: int,
    src: Seq<u8>,
    src_stride: int,
    clip: (int, int, int, int),
    x: int,
    y: int,
    w: int,
    h: int,
    src_x: int,
    src_y: int,
    table: Option<&[u8; 256]>,
    o: BlitOrientation,
    blend: BlitBlend,
) -> Seq<u8> {
    Seq::new(
        data.len(),
        |k: int|
            rect_blit_value(
                data,
                stride,
                src,
                src_stride,
                visible_rect(clip, x, y, w, h),
                o,
                blend,
                table,
                src_x,
                src_y,
                x,
                y,
                w,
                h,
                k,
            ),
    )
}

/// The buffer `data` (rows of `stride` bytes, clip rectangle `clip`) after
/// the tiles at `x`, `x + tile_width`, ... left of `clip_right` have been
/// blitted onto it in turn, each from the source origin.
pub open spec fn tiled_data(
    data: Seq<u8>,
    stride: int,
    src: Seq<u8>,
    src_stride: int,
    clip: (int, int, int, int),
    dst_y: int,
    tile_width: int,
    tile_height: int,
    table: Option<&[u8; 256]>,
    o: BlitOrientation,
    blend: BlitBlend,
    x: int,
    clip_right: int,
) -> Seq<u8>
    decreases (if x < clip_right {
        clip_right - x
    } else {
        0
    }),
{
    if x >= clip_right || tile_width <= 0 {
        data
    } else {
        tiled_data(
            rect_blit_data(
                data,
                stride,
                src,
                src_stride,
                clip,
                x,
                dst_y,
                tile_width,
                tile_height,
                0,
                0,
                table,
                o,
                blend,
            ),
            stride,
            src,
            src_stride,
            clip,
            dst_y,
            tile_width,
            tile_height,
            table,
            o,
            blend,
            x + tile_width,
            clip_right,
        )
    }
}

/// The buffer `data` after `n` rectangle blits of the source at `x`,
/// `x + tile_width`, ..., one after the other.
pub open spec fn repeated_rect_blits(
    data: Seq<u8>,
    stride: int,
    src: Seq<u8>,
    src_stride: int,
    clip: (int, int, int, int),
    dst_y: int,
    tile_width: int,
    tile_height: int,
    table: Option<&[u8; 256]>,
    o: BlitOrientation,
    blend: BlitBlend,
    x: int,
    n: nat,
) -> Seq<u8>
    decreases n,
{
    if n == 0 {
        data
    } else {
        repeated_rect_blits(
            rect_blit_data(
                data,
                stride,
                src,
                src_stride,
                clip,
                x,
                dst_y,
                tile_width,
                tile_height,
                0,
                0,
                table,
                o,
                blend,
            ),
            stride,
            src,
            src_stride,
            clip,
            dst_y,
            tile_width,
            tile_height,
            table,
            o,
            blend,
            x + tile_width,
            (n - 1) as nat,
        )
    }
}

/// How many of the positions `x`, `x + tile_width`, ... lie left of
/// `clip_right`.
pub open spec fn tile_count(x: int, clip_right: int, tile_width: int) -> nat {
    if x < clip_right && tile_width > 0 {
        ((clip_right - x + tile_width - 1) / tile_width) as nat
    } else {
        0
    }
}

/// The first tile lies in `clip_left - tile_width + 1 ..= clip_left` and is
/// a whole number of tiles away from `initial_x`.
pub proof fn lemma_tile_start_aligned(initial_x: int, clip_left: int, tile_width: int)
    requires
        tile_width > 0,
    ensures
        clip_left - tile_width < tile_start(initial_x, clip_left, tile_width) <= clip_left,
        (tile_start(initial_x, clip_left, tile_width) - initial_x) % tile_width == 0,
{
    let d = clip_left - initial_x;
    vstd::arithmetic::div_mod::lemma_fundamental_div_mod(d, tile_width);
    vstd::arithmetic::div_mod::lemma_mod_bound(d, tile_width);
    let q = d / tile_width;
    assert(tile_start(initial_x, clip_left, tile_width) - initial_x == q * tile_width) by (
    nonlinear_arith)
        requires
            d == tile_width * q + d % tile_width,
            tile_start(initial_x, clip_left, tile_width) == clip_left - d % tile_width,
            d == clip_left - initial_x,
    ;
    vstd::arithmetic::div_mod::lemma_mod_multiples_basic(q, tile_width);
}

/// The tiles `x`, `x + tile_width`, ... left of `clip_right`, when they
/// exist, number `tile_count`: the last lies left of `clip_right` and the
/// next would not.
pub proof fn lemma_tile_count_bounds(x: int, clip_right: int, tile_width: int)
    requires
        tile_width > 0,
        x < clip_right,
    ensures
        tile_count(x, clip_right, tile_width) >= 1,
        x + (tile_count(x, clip_right, tile_width) - 1) * tile_width < clip_right,
        clip_right <= x + tile_count(x, clip_right, tile_width) * tile_width,
{
    let a = clip_right - x + tile_width - 1;
    vstd::arithmetic::div_mod::lemma_fundamental_div_mod(a, tile_width);
    vstd::arithmetic::div_mod::lemma_mod_bound(a, tile_width);
    let n = a / tile_width;
    assert(n >= 1) by (nonlinear_arith)
        requires
            a == tile_width * n + a % tile_width,
            0 <= a % tile_width < tile_width,
            a >= tile_width,
    ;
    assert(x + (n - 1) * tile_width < clip_right && clip_right <= x + n * tile_width) by (
    nonlinear_arith)
        requires
            a == tile_width * n + a % tile_width,
            0 <= a % tile_width < tile_width,
            a == clip_right - x + tile_width - 1,
    ;
}

/// A tiling is the rectangle blits of its tiles one after the other: the
/// `tile_count` tiles from `x` on, each blitted from the source origin.
pub proof fn lemma_tiled_is_repeated_rect_blits(
    data: Seq<u8>,
    stride: int,
    src: Seq<u8>,
    src_stride: int,
    clip: (int, int, int, int),
    dst_y: int,
    tile_width: int,
    tile_height: int,
    table: Option<&[u8; 256]>,
    o: BlitOrientation,
    blend: BlitBlend,
    x: int,
    clip_right: int,
)
    requires
        tile_width > 0,
    ensures
        tiled_data(
            data,
            stride,
            src,
            src_stride,
            clip,
            dst_y,
            tile_width,
            tile_height,
            table,
            o,
            blend,
            x,
            clip_right,
        ) == repeated_rect_blits(
            data,
            stride,
            src,
            src_stride,
            clip,
            dst_y,
            tile_width,
            tile_height,
            table,
            o,
            blend,
            x,
            tile_count(x, clip_right, tile_width),
        ),
    decreases (if x < clip_right {
        clip_right - x
    } else {
        0
    }),
{
    if x < clip_right {
        let next = rect_blit_data(
            data,
            stride,
            src,
            src_stride,
            clip,
            x,
            dst_y,
            tile_width,
            tile_height,
            0,
            0,
            table,
            o,
            blend,
        );
        lemma_tiled_is_repeated_rect_blits(
            next,
            stride,
            src,
            src_stride,
            clip,
            dst_y,
            tile_width,
            tile_height,
            table,
            o,
            blend,
            x + tile_width,
            clip_right,
        );
        let a = clip_right - x + tile_width - 1;
        vstd::arithmetic::div_mod::lemma_div_minus_one(a, tile_width);
        if x + tile_width >= clip_right {
            vstd::arithmetic::div_mod::lemma_basic_div_specific_divisor(tile_width);
            assert((-tile_width + a) / tile_width == 0);
        }
        assert(tile_count(x, clip_right, tile_width) == 1 + tile_count(
            x + tile_width,
            clip_right,
            tile_width,
        ));
    }
}

proof fn lemma_euclid_mod_of_negative(diff: int, tw: int, m: int)
    requires
        diff < 0,
        tw > 0,
        m == (-diff) % tw,
    ensures
        diff % tw == (if m == 0 {
            0
        } else {
            tw - m
        }),
{
    let q = (-diff) / tw;
    vstd::arithmetic::div_mod::lemma_fundamental_div_mod(-diff, tw);
    assert(-diff == tw * q + m);
    assert(0 <= m < tw) by {
        vstd::arithmetic::div_mod::lemma_mod_bound(-diff, tw);
    }
    if m == 0 {
        assert(diff == (-q) * tw + 0) by (nonlinear_arith)
            requires
                -diff == tw * q + m,
                m == 0,
        ;
        vstd::arithmetic::div_mod::lemma_fundamental_div_mod_converse(diff, tw, -q, 0);
    } else {
        assert(diff == (-q - 1) * tw + (tw - m)) by (nonlinear_arith)
            requires
                -diff == tw * q + m,
        ;
        vstd::arithmetic::div_mod::lemma_fundamental_div_mod_converse(diff, tw, -q - 1, tw - m);
    }
}

/// Blit `src` as a row of tiles `tile_width` apart at height `dst_y`: the
/// tiles are aligned with `initial_x` and cover `clip_left..clip_right`.
/// `flags` select the orientation and blend of every tile.
pub fn blit_tiled(
    dst: &mut PixelGrid,
    src: &BlitSource,
    initial_x: i32,
    dst_y: i32,
    tile_width: i32,
    tile_height: i32,
    clip_left: i32,
    clip_right: i32,
    color_table: Option<&[u8; 256]>,
    flags: u32,
)
    requires
        old(dst).wf(),
        old(dst).clip_right <= i32::MAX,
        old(dst).clip_bottom <= i32::MAX,
        tile_width > 0 ==> tile_start(initial_x as int, clip_left as int, tile_width as int)
            >= i32::MIN,
        forall|x: int|
            tile_width > 0 && (x - initial_x) % (tile_width as int) == 0 ==> #[trigger] rect_reads_ok(
                src.data@,
                src.row_stride as int,
                visible_rect(clip_rect(*old(dst)), x, dst_y as int, tile_width as int, tile_height as int),
                orientation_of((flags >> 16u32) & 0xFFFFu32),
                blend_of(flags & 0xFFFFu32),
                0,
                0,
                x,
                dst_y as int,
                tile_width as int,
                tile_height as int,
            ),
    ensures
        final(dst).wf(),
        final(dst).width == old(dst).width,
        final(dst).height == old(dst).height,
        final(dst).row_stride == old(dst).row_stride,
        clip_rect(*final(dst)) == clip_rect(*old(dst)),
        final(dst).data@ == (if tile_width <= 0 || tile_height <= 0 {
            old(dst).data@
        } else {
            tiled_data(
                old(dst).data@,
                old(dst).row_stride as int,
                src.data@,
                src.row_stride as int,
                clip_rect(*old(dst)),
                dst_y as int,
                tile_width as int,
                tile_height as int,
                color_table,
                orientation_of((flags >> 16u32) & 0xFFFFu32),
                blend_of(flags & 0xFFFFu32),
                tile_start(initial_x as int, clip_left as int, tile_width as int),
                clip_right as int,
            )
        }),
        tile_width > 0 && tile_height > 0 ==> final(dst).data@ == repeated_rect_blits(
            old(dst).data@,
            old(dst).row_stride as int,
            src.data@,
            src.row_stride as int,
            clip_rect(*old(dst)),
            dst_y as int,
            tile_width as int,
            tile_height as int,
            color_table,
            orientation_of((flags >> 16u32) & 0xFFFFu32),
            blend_of(flags & 0xFFFFu32),
            tile_start(initial_x as int, clip_left as int, tile_width as int),
            tile_count(
                tile_start(initial_x as int, clip_left as int, tile_width as int),
                clip_right as int,
                tile_width as int,
            ),
        ),
{
    if tile_width <= 0 || tile_height <= 0 {
        return ;
    }
    let orientation = BlitOrientation::from_flags(flags);
    let blend = BlitBlend::from_flags(flags);
    let tw: i64 = tile_width as i64;
    let diff: i64 = clip_left as i64 - initial_x as i64;
    let r: i64 = if diff >= 0 {
        ((diff as u64) % (tw as u64)) as i64
    } else {
        let m: i64 = (((-diff) as u64) % (tw as u64)) as i64;
        proof {
            lemma_euclid_mod_of_negative(diff as int, tw as int, m as int);
        }
        if m == 0 {
            0
        } else {
            tw - m
        }
    };
    assert(r == (diff as int) % (tw as int));
    let mut x: i64 = clip_left as i64 - r;
    let ghost x0 = x as int;
    proof {
        lemma_tile_start_aligned(initial_x as int, clip_left as int, tile_width as int);
    }
    let ghost stride = dst.row_stride as int;
    let ghost clip = clip_rect(*dst);
    let ghost target = tiled_data(
        dst.data@,
        stride,
        src.data@,
        src.row_stride as int,
        clip,
        dst_y as int,
        tile_width as int,
        tile_height as int,
        color_table,
        orientation,
        blend,
        x as int,
        clip_right as int,
    );
    while x < clip_right as i64
        invariant
            dst.wf(),
            dst.clip_right <= i32::MAX,
            dst.clip_bottom <= i32::MAX,
            dst.width == old(dst).width,
            dst.height == old(dst).height,
            dst.row_stride == old(dst).row_stride,
            clip_rect(*dst) == clip,
            clip == clip_rect(*old(dst)),
            stride == dst.row_stride,
            tw == tile_width,
            tile_width > 0,
            tile_height > 0,
            i32::MIN <= x,
            orientation == orientation_of((flags >> 16u32) & 0xFFFFu32),
            blend == blend_of(flags & 0xFFFFu32),
            (x - initial_x) % (tile_width as int) == 0,
            forall|x: int|
                tile_width > 0 && (x - initial_x) % (tile_width as int) == 0 ==> #[trigger] rect_reads_ok(
                    src.data@,
                    src.row_stride as int,
                    visible_rect(clip, x, dst_y as int, tile_width as int, tile_height as int),
                    orientation,
                    blend,
                    0,
                    0,
                    x,
                    dst_y as int,
                    tile_width as int,
                    tile_height as int,
                ),
            tiled_data(
                dst.data@,
                stride,
                src.data@,
                src.row_stride as int,
                clip,
                dst_y as int,
                tile_width as int,
                tile_height as int,
                color_table,
                orientation,
                blend,
                x as int,
                clip_right as int,
            ) == target,
        decreases (if x < clip_right {
            clip_right - x
        } else {
            0
        }),
    {
        let ghost before = dst.data@;
        proof {
            assert(rect_reads_ok(
                src.data@,
                src.row_stride as int,
                visible_rect(clip, x as int, dst_y as int, tile_width as int, tile_height as int),
                orientation,
                blend,
                0,
                0,
                x as int,
                dst_y as int,
                tile_width as int,
                tile_height as int,
            ));
        }
        blit_sprite_rect(
            dst,
            src,
            x as i32,
            dst_y,
            tile_width,
            tile_height,
            0,
            0,
            color_table,
            orientation,
            blend,
        );
        proof {
            let vis = visible_rect(clip, x as int, dst_y as int, tile_width as int, tile_height as int);
            let next = Seq::new(
                before.len(),
                |k: int|
                    rect_blit_value(
                        before,
                        stride,
                        src.data@,
                        src.row_stride as int,
                        vis,
                        orientation,
                        blend,
                        color_table,
                        0,
                        0,
                        x as int,
                        dst_y as int,
                        tile_width as int,
                        tile_height as int,
                        k,
                    ),
            );
            assert(dst.data@ =~= next);
        }
        proof {
            vstd::arithmetic::div_mod::lemma_mod_add_multiples_vanish(x - initial_x, tile_width as int);
        }
        x = x + tw;
    }
    proof {
        lemma_tiled_is_repeated_rect_blits(
            old(dst).data@,
            stride,
            src.data@,
            src.row_stride as int,
            clip,
            dst_y as int,
            tile_width as int,
            tile_height as int,
            color_table,
            orientation,
            blend,
            x0,
            clip_right as int,
        );
    }
}

/// A surface of `width` x `height` pixels (rows padded as by
/// `PixelGrid::new`) holding the row-major pixels `pixels`.
pub fn pixel_grid_from_indexed(width: u32, height: u32, pixels: &[u8]) -> (g: PixelGrid)
    requires
        width * height <= u32::MAX,
        pixels@.len() == width * height,
        width + 3 <= u32::MAX,
        crate::pixel_grid::stride_for(width as int) * height <= usize::MAX,
    ensures
        g.wf(),
        g.width == width,
        g.height == height,
        g.row_stride == crate::pixel_grid::stride_for(width as int),
        clip_rect(g) == (0int, 0int, width as int, height as int),
        forall|k: int|
            0 <= k < g.data@.len() ==> #[trigger] g.data@[k] == (if k % (g.row_stride as int)
                < width {
                pixels@[(k / (g.row_stride as int)) * width + k % (g.row_stride as int)]
            } else {
                0u8
            }),
{
    let mut grid = crate::pixel_grid::PixelGrid::new(width, height);
    let ghost stride = grid.row_stride as int;
    proof {
        assert forall|k: int| 0 <= k < grid.data@.len() implies #[trigger] grid.data@[k] == (if k
            % stride < width && k / stride < 0 {
            pixels@[(k / stride) * width + k % stride]
        } else {
            0u8
        }) by {
            if stride > 0 {
                vstd::arithmetic::div_mod::lemma_div_pos_is_pos(k, stride);
            } else {
                assert(stride * (height as int) == 0) by (nonlinear_arith)
                    requires
                        stride == 0,
                ;
            }
        }
    }
    let mut y: u32 = 0;
    while y < height
        invariant
            0 <= y <= height,
            grid.wf(),
            grid.width == width,
            grid.height == height,
            stride == grid.row_stride,
            grid.row_stride == crate::pixel_grid::stride_for(width as int),
            clip_rect(grid) == (0int, 0int, width as int, height as int),
            pixels@.len() == width * height,
            forall|k: int|
                0 <= k < grid.data@.len() ==> #[trigger] grid.data@[k] == (if k % stride < width
                    && k / stride < y {
                    pixels@[(k / stride) * width + k % stride]
                } else {
                    0u8
                }),
        decreases height - y,
    {
        let mut x: u32 = 0;
        while x < width
            invariant
                0 <= y < height,
                0 <= x <= width,
                grid.wf(),
                grid.width == width,
                grid.height == height,
                stride == grid.row_stride,
                grid.row_stride == crate::pixel_grid::stride_for(width as int),
                clip_rect(grid) == (0int, 0int, width as int, height as int),
                pixels@.len() == width * height,
                forall|k: int|
                    0 <= k < grid.data@.len() ==> #[trigger] grid.data@[k] == (if k % stride
                        < width && (k / stride < y || (k / stride == y && k % stride < x)) {
                        pixels@[(k / stride) * width + k % stride]
                    } else {
                        0u8
                    }),
            decreases width - x,
        {
            proof {
                lemma_index_in_bounds(y as int, x as int, width as int, height as int);
                lemma_index_in_bounds(y as int, x as int, stride, height as int);
                lemma_row_col(y * stride + x, y as int, x as int, stride);
            }
            let n: usize = grid.data.len();
            let m: usize = pixels.len();
            let si: usize = (y as usize) * (width as usize) + (x as usize);
            let di: usize = (y as usize) * (grid.row_stride as usize) + (x as usize);
            assert(di as int == y * stride + x);
            let ghost before = grid.data@;
            grid.data[di] = pixels[si];
            proof {
                assert forall|k: int| 0 <= k < grid.data@.len() implies #[trigger] grid.data@[k]
                    == (if k % stride < width && (k / stride < y || (k / stride == y && k % stride
                    < x + 1)) {
                    pixels@[(k / stride) * width + k % stride]
                } else {
                    0u8
                }) by {
                    vstd::arithmetic::div_mod::lemma_fundamental_div_mod(k, stride);
                    let yi = k / stride;
                    let xi = k % stride;
                    if yi == y as int && xi == x as int {
                        assert(stride * yi == yi * stride) by (nonlinear_arith);
                        assert(k == y * stride + x);
                    }
                }
            }
            x = x + 1;
        }
        y = y + 1;
    }
    proof {
        assert forall|k: int| 0 <= k < grid.data@.len() implies #[trigger] grid.data@[k] == (if k
            % stride < width {
            pixels@[(k / stride) * width + k % stride]
        } else {
            0u8
        }) by {
            if stride == 0 {
                assert(stride * (height as int) == 0) by (nonlinear_arith)
                    requires
                        stride == 0,
                ;
            }
            vstd::arithmetic::div_mod::lemma_fundamental_div_mod(k, stride);
            vstd::arithmetic::div_mod::lemma_mod_bound(k, stride);
            let q = k / stride;
            if q >= height {
                assert(stride * q >= stride * height) by (nonlinear_arith)
                    requires
                        q >= height,
                        stride > 0,
                ;
            }
        }
    }
    grid
}

/// Index of the byte that holds pixel `(x, y)` of a surface with rows of
/// `stride` bytes: one bit per pixel when `cpp` is 1, one byte otherwise.
pub open spec fn px_index(stride: int, cpp: u32, x: int, y: int) -> int {
    if cpp == 1 {
        y * stride + x / 8
    } else {
        y * stride + x
    }
}

/// Number of pixels in a row of `stride` bytes.
pub open spec fn px_width(stride: int, cpp: u32) -> int {
    if cpp == 1 {
        8 * stride
    } else {
        stride
    }
}

/// `(x, y)` is a pixel of a surface of `len` bytes.
pub open spec fn px_valid(len: int, stride: int, cpp: u32, x: int, y: int) -> bool {
    &&& 0 <= x < px_width(stride, cpp)
    &&& 0 <= y
    &&& px_index(stride, cpp, x, y) < len
}

/// `(x, y)` has non-negative coordinates and its byte lies inside a
/// surface of `len` bytes (it may lie past the end of its row).
pub open spec fn px_in(len: int, stride: int, cpp: u32, x: int, y: int) -> bool {
    &&& 0 <= x
    &&& 0 <= y
    &&& px_index(stride, cpp, x, y) < len
}

/// `data` after `v` is written to pixel `(x, y)`: one bit (set when `v` is
/// non-zero) when `cpp` is 1, the whole byte otherwise.
pub open spec fn put_at(data: Seq<u8>, stride: int, cpp: u32, x: int, y: int, v: u8) -> Seq<u8> {
    let i = px_index(stride, cpp, x, y);
    if cpp == 1 {
        let bit = (x % 8) as u8;
        let val: u8 = if v != 0 {
            1
        } else {
            0
        };
        data.update(i, (data[i] & !(1u8 << bit)) | (val << bit))
    } else {
        data.update(i, v)
    }
}

/// The value of pixel `(x, y)`: bit `x % 8` of its byte (least significant
/// first) when `cpp` is 1, the byte itself otherwise.
pub open spec fn pixel_at(data: Seq<u8>, stride: int, cpp: u32, x: int, y: int) -> u8 {
    if cpp == 1 {
        (data[px_index(stride, cpp, x, y)] >> ((x % 8) as u8)) & 1u8
    } else {
        data[px_index(stride, cpp, x, y)]
    }
}

/// What a pixel holds after `v` is written to it.
pub open spec fn stored(cpp: u32, v: u8) -> u8 {
    if cpp == 1 {
        if v != 0 {
            1
        } else {
            0
        }
    } else {
        v
    }
}

proof fn lemma_bit_write(v: u8, bit: u8, val: u8, b: u8)
    requires
        bit < 8,
        b < 8,
        val <= 1,
    ensures
        (((v & !(1u8 << bit)) | (val << bit)) >> b) & 1u8 == (if b == bit {
            val
        } else {
            (v >> b) & 1u8
        }),
{
    assert((((v & !(1u8 << bit)) | (val << bit)) >> b) & 1u8 == (if b == bit {
        val
    } else {
        (v >> b) & 1u8
    })) by (bit_vector)
        requires
            bit < 8,
            b < 8,
            val <= 1,
    ;
}

proof fn lemma_pixel_unique(stride: int, cpp: u32, x: int, y: int, x2: int, y2: int)
    requires
        0 <= x < px_width(stride, cpp),
        0 <= x2 < px_width(stride, cpp),
        0 <= y,
        0 <= y2,
        px_index(stride, cpp, x, y) == px_index(stride, cpp, x2, y2),
        cpp == 1 ==> x % 8 == x2 % 8,
    ensures
        x == x2,
        y == y2,
{
    if cpp == 1 {
        vstd::arithmetic::div_mod::lemma_fundamental_div_mod(x, 8);
        vstd::arithmetic::div_mod::lemma_fundamental_div_mod(x2, 8);
        assert(x / 8 < stride);
        assert(x2 / 8 < stride);
        let i = y * stride + x / 8;
        lemma_row_col(i, y, x / 8, stride);
        lemma_row_col(i, y2, x2 / 8, stride);
    } else {
        let i = y * stride + x;
        lemma_row_col(i, y, x, stride);
        lemma_row_col(i, y2, x2, stride);
    }
}

/// Writing `v` to pixel `(x, y)` changes only that pixel's byte, and the
/// pixel then reads back as `v` (as 1 for any non-zero `v`, 0 for 0, at
/// one bit per pixel, where the other seven pixels of the byte keep their
/// bits).
pub proof fn lemma_put_at_reads_back(data: Seq<u8>, stride: int, cpp: u32, x: int, y: int, v: u8)
    requires
        stride >= 0,
        px_in(data.len() as int, stride, cpp, x, y),
    ensures
        put_at(data, stride, cpp, x, y, v).len() == data.len(),
        pixel_at(put_at(data, stride, cpp, x, y, v), stride, cpp, x, y) == (if cpp == 1 {
            if v != 0 {
                1u8
            } else {
                0u8
            }
        } else {
            v
        }),
        forall|k: int|
            0 <= k < data.len() && k != px_index(stride, cpp, x, y) ==> #[trigger] put_at(
                data,
                stride,
                cpp,
                x,
                y,
                v,
            )[k] == data[k],
        cpp == 1 ==> forall|x2: int|
            0 <= x2 && x2 / 8 == x / 8 && x2 != x ==> #[trigger] pixel_at(
                put_at(data, stride, cpp, x, y, v),
                stride,
                cpp,
                x2,
                y,
            ) == pixel_at(data, stride, cpp, x2, y),
{
    let i = px_index(stride, cpp, x, y);
    let r = put_at(data, stride, cpp, x, y, v);
    assert(0 <= i) by (nonlinear_arith)
        requires
            i == px_index(stride, cpp, x, y),
            stride >= 0,
            x >= 0,
            y >= 0,
    ;
    if cpp == 1 {
        let bit = (x % 8) as u8;
        let val: u8 = if v != 0 {
            1
        } else {
            0
        };
        let nb = (data[i] & !(1u8 << bit)) | (val << bit);
        assert(r[i] == nb);
        assert(bit < 8);
        lemma_bit_write(data[i], bit, val, bit);
        assert((nb >> bit) & 1u8 == val);
        assert forall|x2: int| 0 <= x2 && x2 / 8 == x / 8 && x2 != x implies #[trigger] pixel_at(
            r,
            stride,
            cpp,
            x2,
            y,
        ) == pixel_at(data, stride, cpp, x2, y) by {
            let b2 = (x2 % 8) as u8;
            assert(x2 % 8 != x % 8) by {
                vstd::arithmetic::div_mod::lemma_fundamental_div_mod(x, 8);
                vstd::arithmetic::div_mod::lemma_fundamental_div_mod(x2, 8);
            }
            assert(px_index(stride, cpp, x2, y) == i);
            assert(b2 < 8 && b2 != bit);
            lemma_bit_write(data[i], bit, val, b2);
        }
    } else {
        assert(r[i] == v);
    }
}

fn get_pixel(data: &[u8], stride: u32, cpp: u32, x: i64, y: i64) -> (r: u8)
    requires
        px_in(data@.len() as int, stride as int, cpp, x as int, y as int),
        x <= i32::MAX,
        y <= i32::MAX,
    ensures
        r == pixel_at(data@, stride as int, cpp, x as int, y as int),
{
    let n: usize = data.len();
    if cpp == 1 {
        let xb: usize = (x / 8) as usize;
        assert(xb as int == x as int / 8);
        let idx: usize = (y as usize) * (stride as usize) + xb;
        let byte: u8 = data[idx];
        let sh: u8 = (x % 8) as u8;
        (byte >> sh) & 1u8
    } else {
        let idx: usize = (y as usize) * (stride as usize) + (x as usize);
        data[idx]
    }
}

fn put_pixel(data: &mut [u8], stride: u32, cpp: u32, x: i64, y: i64, value: u8)
    requires
        px_in(old(data)@.len() as int, stride as int, cpp, x as int, y as int),
        x <= i32::MAX,
        y <= i32::MAX,
    ensures
        final(data)@ == put_at(old(data)@, stride as int, cpp, x as int, y as int, value),
        px_valid(old(data)@.len() as int, stride as int, cpp, x as int, y as int) ==> forall|
            x2: int,
            y2: int,
        |
            px_valid(old(data)@.len() as int, stride as int, cpp, x2, y2) ==> #[trigger] pixel_at(
                final(data)@,
                stride as int,
                cpp,
                x2,
                y2,
            ) == (if x2 == x && y2 == y {
                stored(cpp, value)
            } else {
                pixel_at(old(data)@, stride as int, cpp, x2, y2)
            }),
{
    let n: usize = data.len();
    let ghost old_data = data@;
    if cpp == 1 {
        let xb: usize = (x / 8) as usize;
        assert(xb as int == x as int / 8);
        let idx: usize = (y as usize) * (stride as usize) + xb;
        let bit: u8 = (x % 8) as u8;
        let val: u8 = if value != 0 { 1 } else { 0 };
        let byte: u8 = data[idx];
        data[idx] = (byte & !(1u8 << bit)) | (val << bit);
        assert(px_index(stride as int, cpp, x as int, y as int) == idx as int);
        assert(data@ =~= put_at(old_data, stride as int, cpp, x as int, y as int, value));
        proof {
        if px_valid(old_data.len() as int, stride as int, cpp, x as int, y as int) {
            assert forall|x2: int, y2: int|
                px_valid(old_data.len() as int, stride as int, cpp, x2, y2) implies #[trigger] pixel_at(
                data@,
                stride as int,
                cpp,
                x2,
                y2,
            ) == (if x2 == x && y2 == y {
                stored(cpp, value)
            } else {
                pixel_at(old_data, stride as int, cpp, x2, y2)
            }) by {
                let j = px_index(stride as int, cpp, x2, y2);
                let b2 = (x2 % 8) as u8;
                if j == idx as int {
                    lemma_bit_write(byte, bit, val, b2);
                    if x2 % 8 == x % 8 {
                        lemma_pixel_unique(stride as int, cpp, x as int, y as int, x2, y2);
                    }
                }
            }
        }
        }
    } else {
        let idx: usize = (y as usize) * (stride as usize) + (x as usize);
        data[idx] = value;
        assert(px_index(stride as int, cpp, x as int, y as int) == idx as int);
        assert(data@ =~= put_at(old_data, stride as int, cpp, x as int, y as int, value));
        proof {
        if px_valid(old_data.len() as int, stride as int, cpp, x as int, y as int) {
            assert forall|x2: int, y2: int|
                px_valid(old_data.len() as int, stride as int, cpp, x2, y2) implies #[trigger] pixel_at(
                data@,
                stride as int,
                cpp,
                x2,
                y2,
            ) == (if x2 == x && y2 == y {
                stored(cpp, value)
            } else {
                pixel_at(old_data, stride as int, cpp, x2, y2)
            }) by {
                let j = px_index(stride as int, cpp, x2, y2);
                if j == idx as int {
                    lemma_pixel_unique(stride as int, cpp, x as int, y as int, x2, y2);
                }
            }
        }
        }
    }
}

/// The value that blend mode `mode` of a per-pixel blit writes to a pixel
/// holding `d` from a source pixel `s`, or `None` where it leaves the
/// pixel alone: 0 copies, 1 draws non-zero pixels through the colour
/// table, 2 draws non-zero pixels over non-zero pixels, 3 draws non-zero
/// pixels over zero pixels, 4 clears where the source is non-zero.
pub open spec fn perpixel_write(mode: u32, table: Option<&[u8; 256]>, s: u8, d: u8) -> Option<u8> {
    if mode == 0 {
        Some(s)
    } else if mode == 1 {
        if s != 0 {
            Some(table_lookup(table, s))
        } else {
            None
        }
    } else if mode == 2 {
        if s != 0 && d != 0 {
            Some(s)
        } else {
            None
        }
    } else if mode == 3 {
        if s != 0 && d == 0 {
            Some(s)
        } else {
            None
        }
    } else if mode == 4 {
        if s != 0 {
            Some(0)
        } else {
            None
        }
    } else {
        None
    }
}

/// The pixel left by `perpixel_write` on a surface with `cpp`.
pub open spec fn perpixel_result(mode: u32, table: Option<&[u8; 256]>, cpp: u32, s: u8, d: u8) -> u8 {
    match perpixel_write(mode, table, s, d) {
        Some(v) => stored(cpp, v),
        None => d,
    }
}

/// Source position read for destination pixel `(x, y)` of a per-pixel
/// blit whose clip rectangle starts at `(clip_left, clip_top)`.
pub open spec fn perpixel_src(
    src_x: int,
    src_y: int,
    clip_left: int,
    clip_top: int,
    x: int,
    y: int,
) -> (int, int) {
    (src_x - clip_left + x, src_y + (y - clip_top))
}

/// The byte of every pixel of the clip rectangle lies inside the
/// destination, and that of its source position inside the source.
pub open spec fn perpixel_reads_ok(
    dst_len: int,
    dst_stride: int,
    dst_cpp: u32,
    src: Seq<u8>,
    src_stride: int,
    src_cpp: u32,
    clip: (int, int, int, int),
    src_x: int,
    src_y: int,
) -> bool {
    forall|x: int, y: int|
        #![trigger perpixel_src(src_x, src_y, clip.0, clip.1, x, y)]
        in_rect(clip, x, y) ==> {
            let p = perpixel_src(src_x, src_y, clip.0, clip.1, x, y);
            &&& px_in(dst_len, dst_stride, dst_cpp, x, y)
            &&& px_in(src.len() as int, src_stride, src_cpp, p.0, p.1)
            &&& p.0 <= i32::MAX
            &&& p.1 <= i32::MAX
        }
}

/// Some pixel of the clip rectangle is non-zero both in the destination and
/// at its source position.
pub open spec fn perpixel_collides(
    dst: Seq<u8>,
    dst_stride: int,
    dst_cpp: u32,
    src: Seq<u8>,
    src_stride: int,
    src_cpp: u32,
    clip: (int, int, int, int),
    src_x: int,
    src_y: int,
) -> bool {
    exists|x: int, y: int|
        #![trigger perpixel_src(src_x, src_y, clip.0, clip.1, x, y)]
        in_rect(clip, x, y) && pixel_at(dst, dst_stride, dst_cpp, x, y) != 0 && {
            let p = perpixel_src(src_x, src_y, clip.0, clip.1, x, y);
            pixel_at(src, src_stride, src_cpp, p.0, p.1) != 0
        }
}

/// Every pixel of the clip rectangle lies inside its row of the
/// destination, so that no two of them share a byte position.
pub open spec fn clip_in_rows(len: int, stride: int, cpp: u32, clip: (int, int, int, int)) -> bool {
    forall|x: int, y: int| in_rect(clip, x, y) ==> #[trigger] px_valid(len, stride, cpp, x, y)
}

/// `data` after a per-pixel blit has handled pixel `(x, y)`: the source
/// pixel read for it and the pixel it holds in `data` decide what
/// `perpixel_write` puts there.
pub open spec fn perpixel_step(
    data: Seq<u8>,
    ds: int,
    dcpp: u32,
    src: Seq<u8>,
    ss: int,
    scpp: u32,
    clip: (int, int, int, int),
    src_x: int,
    src_y: int,
    table: Option<&[u8; 256]>,
    mode: u32,
    x: int,
    y: int,
) -> Seq<u8> {
    let p = perpixel_src(src_x, src_y, clip.0, clip.1, x, y);
    match perpixel_write(mode, table, pixel_at(src, ss, scpp, p.0, p.1), pixel_at(data, ds, dcpp, x, y)) {
        Some(v) => put_at(data, ds, dcpp, x, y, v),
        None => data,
    }
}

/// `data` after the pixels `clip.0..x_end` of row `y` have been handled,
/// left to right.
pub open spec fn perpixel_row(
    data: Seq<u8>,
    ds: int,
    dcpp: u32,
    src: Seq<u8>,
    ss: int,
    scpp: u32,
    clip: (int, int, int, int),
    src_x: int,
    src_y: int,
    table: Option<&[u8; 256]>,
    mode: u32,
    y: int,
    x_end: int,
) -> Seq<u8>
    decreases x_end - clip.0,
{
    if x_end <= clip.0 {
        data
    } else {
        perpixel_step(
            perpixel_row(data, ds, dcpp, src, ss, scpp, clip, src_x, src_y, table, mode, y, x_end - 1),
            ds,
            dcpp,
            src,
            ss,
            scpp,
            clip,
            src_x,
            src_y,
            table,
            mode,
            x_end - 1,
            y,
        )
    }
}

/// `data` after the rows `clip.1..y_end` of the clip rectangle have been
/// handled, top to bottom.
pub open spec fn perpixel_rows(
    data: Seq<u8>,
    ds: int,
    dcpp: u32,
    src: Seq<u8>,
    ss: int,
    scpp: u32,
    clip: (int, int, int, int),
    src_x: int,
    src_y: int,
    table: Option<&[u8; 256]>,
    mode: u32,
    y_end: int,
) -> Seq<u8>
    decreases y_end - clip.1,
{
    if y_end <= clip.1 {
        data
    } else {
        perpixel_row(
            perpixel_rows(data, ds, dcpp, src, ss, scpp, clip, src_x, src_y, table, mode, y_end - 1),
            ds,
            dcpp,
            src,
            ss,
            scpp,
            clip,
            src_x,
            src_y,
            table,
            mode,
            y_end - 1,
            clip.2,
        )
    }
}

/// What each per-pixel blend mode writes where the source pixel is `s` and
/// the destination pixel `d`: mode 0 copies every source pixel; mode 1
/// draws each non-zero source pixel through the colour table (as itself
/// without one); mode 2 draws non-zero source pixels over non-zero
/// destination pixels only, mode 3 over zero ones only; mode 4 clears
/// where the source is non-zero; any other mode writes nothing. A zero
/// source pixel is never drawn by modes 1 to 4.
pub proof fn lemma_perpixel_modes(table: Option<&[u8; 256]>, s: u8, d: u8)
    ensures
        perpixel_write(0, table, s, d) == Some(s),
        s == 0 ==> forall|m: u32| 1 <= m ==> #[trigger] perpixel_write(m, table, s, d) is None,
        s != 0 ==> perpixel_write(1, table, s, d) == Some(
            match table {
                Some(t) => t@[s as int],
                None => s,
            },
        ),
        s != 0 ==> perpixel_write(2, table, s, d) == (if d != 0 {
            Some(s)
        } else {
            None
        }),
        s != 0 ==> perpixel_write(3, table, s, d) == (if d == 0 {
            Some(s)
        } else {
            None
        }),
        s != 0 ==> perpixel_write(4, table, s, d) == Some(0u8),
        forall|m: u32| m >= 5 ==> #[trigger] perpixel_write(m, table, s, d) is None,
{
}

fn perpixel_write_value(mode: u32, table: Option<&[u8; 256]>, s: u8, d: u8) -> (r: Option<u8>)
    ensures
        r == perpixel_write(mode, table, s, d),
{
    if mode == 0 {
        Some(s)
    } else if mode == 1 {
        if s != 0 {
            match table {
                Some(t) => Some(t[s as usize]),
                None => Some(s),
            }
        } else {
            None
        }
    } else if mode == 2 {
        if s != 0 && d != 0 {
            Some(s)
        } else {
            None
        }
    } else if mode == 3 {
        if s != 0 && d == 0 {
            Some(s)
        } else {
            None
        }
    } else if mode == 4 {
        if s != 0 {
            Some(0)
        } else {
            None
        }
    } else {
        None
    }
}

/// Per-pixel blit between surfaces of one or eight bits per pixel (`cpp`
/// 1 or otherwise) over the clip rectangle, reading the source from
/// `(src_x, src_y)` on. Modes 0 to 4 draw (see `perpixel_write`) and
/// return 1; mode 5 only tests for a collision and returns 1 if some pixel
/// is non-zero in both surfaces, 0 otherwise; other modes do nothing and
/// return 1.
pub fn blit_generic_perpixel(
    dst: &mut [u8],
    dst_stride: u32,
    dst_cpp: u32,
    src: &[u8],
    src_stride: u32,
    src_cpp: u32,
    clip_left: i32,
    clip_top: i32,
    clip_right: i32,
    clip_bottom: i32,
    src_x: i32,
    src_y: i32,
    color_table: Option<&[u8; 256]>,
    blend_mode: u32,
) -> (r: u32)
    requires
        blend_mode <= 5 ==> perpixel_reads_ok(
            old(dst)@.len() as int,
            dst_stride as int,
            dst_cpp,
            src@,
            src_stride as int,
            src_cpp,
            (clip_left as int, clip_top as int, clip_right as int, clip_bottom as int),
            src_x as int,
            src_y as int,
        ),
    ensures
        final(dst)@.len() == old(dst)@.len(),
        blend_mode > 4 ==> final(dst)@ == old(dst)@,
        blend_mode <= 4 ==> final(dst)@ == perpixel_rows(
            old(dst)@,
            dst_stride as int,
            dst_cpp,
            src@,
            src_stride as int,
            src_cpp,
            (clip_left as int, clip_top as int, clip_right as int, clip_bottom as int),
            src_x as int,
            src_y as int,
            color_table,
            blend_mode,
            clip_bottom as int,
        ),
        r == (if blend_mode == 5 {
            if perpixel_collides(
                old(dst)@,
                dst_stride as int,
                dst_cpp,
                src@,
                src_stride as int,
                src_cpp,
                (clip_left as int, clip_top as int, clip_right as int, clip_bottom as int),
                src_x as int,
                src_y as int,
            ) {
                1u32
            } else {
                0u32
            }
        } else {
            1u32
        }),
        clip_in_rows(
            old(dst)@.len() as int,
            dst_stride as int,
            dst_cpp,
            (clip_left as int, clip_top as int, clip_right as int, clip_bottom as int),
        ) ==> forall|x: int, y: int|
            px_valid(old(dst)@.len() as int, dst_stride as int, dst_cpp, x, y) ==> #[trigger] pixel_at(
                final(dst)@,
                dst_stride as int,
                dst_cpp,
                x,
                y,
            ) == (if blend_mode <= 4 && clip_left <= x < clip_right && clip_top <= y < clip_bottom {
                perpixel_result(
                    blend_mode,
                    color_table,
                    dst_cpp,
                    pixel_at(
                        src@,
                        src_stride as int,
                        src_cpp,
                        src_x - clip_left + x,
                        src_y + (y - clip_top),
                    ),
                    pixel_at(old(dst)@, dst_stride as int, dst_cpp, x, y),
                )
            } else {
                pixel_at(old(dst)@, dst_stride as int, dst_cpp, x, y)
            }),
{
    let ghost old_dst = dst@;
    let ghost clip = (clip_left as int, clip_top as int, clip_right as int, clip_bottom as int);
    let ghost ds = dst_stride as int;
    let ghost ss = src_stride as int;
    if blend_mode > 5 {
        return 1;
    }
    let src_x_offset: i64 = src_x as i64 - clip_left as i64;
    if blend_mode == 5 {
        let mut y: i64 = clip_top as i64;
        while y < clip_bottom as i64
            invariant
                blend_mode == 5,
                clip_top <= y,
                y <= clip_bottom || y == clip_top,
                dst@ == old_dst,
                src_x_offset == src_x - clip_left,
                clip == (clip_left as int, clip_top as int, clip_right as int, clip_bottom as int),
                ds == dst_stride as int,
                old_dst == old(dst)@,
                ss == src_stride as int,
                perpixel_reads_ok(
                    old_dst.len() as int,
                    ds,
                    dst_cpp,
                    src@,
                    ss,
                    src_cpp,
                    clip,
                    src_x as int,
                    src_y as int,
                ),
                forall|x2: int, y2: int|
                    #![trigger perpixel_src(src_x as int, src_y as int, clip.0, clip.1, x2, y2)]
                    in_rect(clip, x2, y2) && y2 < y ==> !(pixel_at(old_dst, ds, dst_cpp, x2, y2) != 0
                        && {
                        let p = perpixel_src(src_x as int, src_y as int, clip.0, clip.1, x2, y2);
                        pixel_at(src@, ss, src_cpp, p.0, p.1) != 0
                    }),
            ensures
                dst@ == old_dst,
                forall|x2: int, y2: int|
                    #![trigger perpixel_src(src_x as int, src_y as int, clip.0, clip.1, x2, y2)]
                    in_rect(clip, x2, y2) ==> !(pixel_at(old_dst, ds, dst_cpp, x2, y2) != 0 && {
                        let p = perpixel_src(src_x as int, src_y as int, clip.0, clip.1, x2, y2);
                        pixel_at(src@, ss, src_cpp, p.0, p.1) != 0
                    }),
            decreases clip_bottom - y,
        {
            let mut x: i64 = clip_left as i64;
            while x < clip_right as i64
                invariant
                    blend_mode == 5,
                    clip_top <= y < clip_bottom,
                    clip_left <= x,
                    x <= clip_right || x == clip_left,
                    dst@ == old_dst,
                    src_x_offset == src_x - clip_left,
                clip == (clip_left as int, clip_top as int, clip_right as int, clip_bottom as int),
                ds == dst_stride as int,
                old_dst == old(dst)@,
                ss == src_stride as int,
                    perpixel_reads_ok(
                        old_dst.len() as int,
                        ds,
                        dst_cpp,
                        src@,
                        ss,
                        src_cpp,
                        clip,
                        src_x as int,
                        src_y as int,
                    ),
                    forall|x2: int, y2: int|
                        #![trigger perpixel_src(src_x as int, src_y as int, clip.0, clip.1, x2, y2)]
                        in_rect(clip, x2, y2) && (y2 < y || (y2 == y && x2 < x)) ==> !(pixel_at(
                            old_dst,
                            ds,
                            dst_cpp,
                            x2,
                            y2,
                        ) != 0 && {
                            let p = perpixel_src(
                                src_x as int,
                                src_y as int,
                                clip.0,
                                clip.1,
                                x2,
                                y2,
                            );
                            pixel_at(src@, ss, src_cpp, p.0, p.1) != 0
                        }),
                decreases clip_right - x,
            {
                let ghost p = perpixel_src(src_x as int, src_y as int, clip.0, clip.1, x as int, y as int);
                assert(in_rect(clip, x as int, y as int));
                let d: u8 = get_pixel(dst, dst_stride, dst_cpp, x, y);
                if d != 0 {
                    let s: u8 = get_pixel(
                        src,
                        src_stride,
                        src_cpp,
                        src_x_offset + x,
                        src_y as i64 + (y - clip_top as i64),
                    );
                    if s != 0 {
                        assert(perpixel_collides(
                            old_dst,
                            ds,
                            dst_cpp,
                            src@,
                            ss,
                            src_cpp,
                            clip,
                            src_x as int,
                            src_y as int,
                        ));
                        assert(dst@ == old_dst);
                        return 1;
                    }
                }
                x = x + 1;
            }
            y = y + 1;
        }
        return 0;
    }
    let mut y: i64 = clip_top as i64;
    while y < clip_bottom as i64
        invariant
            dst@ == perpixel_rows(
                old_dst,
                ds,
                dst_cpp,
                src@,
                ss,
                src_cpp,
                clip,
                src_x as int,
                src_y as int,
                color_table,
                blend_mode,
                y as int,
            ),
            blend_mode <= 4,
            clip_top <= y,
            y <= clip_bottom || y == clip_top,
            dst@.len() == old_dst.len(),
            src_x_offset == src_x - clip_left,
            clip == (clip_left as int, clip_top as int, clip_right as int, clip_bottom as int),
            ds == dst_stride as int,
            old_dst == old(dst)@,
            ss == src_stride as int,
            perpixel_reads_ok(
                old_dst.len() as int,
                ds,
                dst_cpp,
                src@,
                ss,
                src_cpp,
                clip,
                src_x as int,
                src_y as int,
            ),
            clip_in_rows(old_dst.len() as int, ds, dst_cpp, clip) ==> forall|x2: int, y2: int|
                px_valid(old_dst.len() as int, ds, dst_cpp, x2, y2) ==> #[trigger] pixel_at(
                    dst@,
                    ds,
                    dst_cpp,
                    x2,
                    y2,
                ) == (if in_rect(clip, x2, y2) && y2 < y {
                    perpixel_result(
                        blend_mode,
                        color_table,
                        dst_cpp,
                        pixel_at(src@, ss, src_cpp, src_x - clip_left + x2, src_y + (y2 - clip_top)),
                        pixel_at(old_dst, ds, dst_cpp, x2, y2),
                    )
                } else {
                    pixel_at(old_dst, ds, dst_cpp, x2, y2)
                }),
        decreases clip_bottom - y,
    {
        let mut x: i64 = clip_left as i64;
        while x < clip_right as i64
            invariant
                dst@ == perpixel_row(
                    perpixel_rows(
                        old_dst,
                        ds,
                        dst_cpp,
                        src@,
                        ss,
                        src_cpp,
                        clip,
                        src_x as int,
                        src_y as int,
                        color_table,
                        blend_mode,
                        y as int,
                    ),
                    ds,
                    dst_cpp,
                    src@,
                    ss,
                    src_cpp,
                    clip,
                    src_x as int,
                    src_y as int,
                    color_table,
                    blend_mode,
                    y as int,
                    x as int,
                ),
                blend_mode <= 4,
                clip_top <= y < clip_bottom,
                clip_left <= x,
                x <= clip_right || x == clip_left,
                dst@.len() == old_dst.len(),
                src_x_offset == src_x - clip_left,
                clip == (clip_left as int, clip_top as int, clip_right as int, clip_bottom as int),
                ds == dst_stride as int,
                old_dst == old(dst)@,
                ss == src_stride as int,
                perpixel_reads_ok(
                    old_dst.len() as int,
                    ds,
                    dst_cpp,
                    src@,
                    ss,
                    src_cpp,
                    clip,
                    src_x as int,
                    src_y as int,
                ),
                clip_in_rows(old_dst.len() as int, ds, dst_cpp, clip) ==> forall|x2: int, y2: int|
                    px_valid(old_dst.len() as int, ds, dst_cpp, x2, y2) ==> #[trigger] pixel_at(
                        dst@,
                        ds,
                        dst_cpp,
                        x2,
                        y2,
                    ) == (if in_rect(clip, x2, y2) && (y2 < y || (y2 == y && x2 < x)) {
                        perpixel_result(
                            blend_mode,
                            color_table,
                            dst_cpp,
                            pixel_at(
                                src@,
                                ss,
                                src_cpp,
                                src_x - clip_left + x2,
                                src_y + (y2 - clip_top),
                            ),
                            pixel_at(old_dst, ds, dst_cpp, x2, y2),
                        )
                    } else {
                        pixel_at(old_dst, ds, dst_cpp, x2, y2)
                    }),
            decreases clip_right - x,
        {
            let ghost p = perpixel_src(src_x as int, src_y as int, clip.0, clip.1, x as int, y as int);
            assert(in_rect(clip, x as int, y as int));
            let s: u8 = get_pixel(
                src,
                src_stride,
                src_cpp,
                src_x_offset + x,
                src_y as i64 + (y - clip_top as i64),
            );
            let d: u8 = get_pixel(dst, dst_stride, dst_cpp, x, y);
            let ghost before = dst@;
            proof {
                if clip_in_rows(old_dst.len() as int, ds, dst_cpp, clip) {
                    assert(px_valid(old_dst.len() as int, ds, dst_cpp, x as int, y as int));
                }
            }
            match perpixel_write_value(blend_mode, color_table, s, d) {
                Some(v) => {
                    put_pixel(dst, dst_stride, dst_cpp, x, y, v);
                },
                None => {},
            }
            x = x + 1;
        }
        proof {
            let rows = perpixel_rows(old_dst, ds, dst_cpp, src@, ss, src_cpp, clip, src_x as int, src_y as int, color_table, blend_mode, y as int);
            if clip_right <= clip_left {
                assert(perpixel_row(rows, ds, dst_cpp, src@, ss, src_cpp, clip, src_x as int, src_y as int, color_table, blend_mode, y as int, x as int) == rows);
                assert(perpixel_row(rows, ds, dst_cpp, src@, ss, src_cpp, clip, src_x as int, src_y as int, color_table, blend_mode, y as int, clip.2) == rows);
            }
            assert(perpixel_rows(old_dst, ds, dst_cpp, src@, ss, src_cpp, clip, src_x as int, src_y as int, color_table, blend_mode, y + 1) == perpixel_row(rows, ds, dst_cpp, src@, ss, src_cpp, clip, src_x as int, src_y as int, color_table, blend_mode, y as int, clip.2));
        }
        y = y + 1;
    }
    proof {
        if clip_bottom <= clip_top {
            assert(perpixel_rows(old_dst, ds, dst_cpp, src@, ss, src_cpp, clip, src_x as int, src_y as int, color_table, blend_mode, y as int) == old_dst);
            assert(perpixel_rows(old_dst, ds, dst_cpp, src@, ss, src_cpp, clip, src_x as int, src_y as int, color_table, blend_mode, clip_bottom as int) == old_dst);
        }
    }
    1
}

/// Byte `k` of a one-bit destination after a byte-aligned blit of the rows
/// `clip_top..clip_bottom` has handled the rows before `row` and the first
/// `col` bytes of row `row`: `bw` bytes from byte column `dbx` of each row
/// are replaced (mode 0) or or-ed (modes other than 2) with the bytes from
/// byte column `sbx` of the source rows from `src_y` on; mode 2 leaves the
/// destination alone.
pub open spec fn aligned_value(
    old: Seq<u8>,
    dst_stride: int,
    src: Seq<u8>,
    src_stride: int,
    clip_top: int,
    clip_bottom: int,
    dbx: int,
    sbx: int,
    bw: int,
    src_y: int,
    mode: u32,
    row: int,
    col: int,
    k: int,
) -> u8 {
    let r = k / dst_stride;
    let c = k % dst_stride - dbx;
    if mode != 2 && clip_top <= r < clip_bottom && 0 <= c < bw && (r < row || (r == row && c < col)) {
        let sv = src[(src_y + (r - clip_top)) * src_stride + sbx + c];
        if mode == 0 {
            sv
        } else {
            old[k] | sv
        }
    } else {
        old[k]
    }
}

/// Blit between one-bit surfaces whose clip edges and source column are
/// multiples of eight: whole bytes are copied (mode 0), left alone (mode 2)
/// or or-ed in (any other mode).
pub fn blit_1bit_aligned(
    dst: &mut [u8],
    dst_stride: u32,
    src: &[u8],
    src_stride: u32,
    clip_left: i32,
    clip_top: i32,
    clip_right: i32,
    clip_bottom: i32,
    src_x: i32,
    src_y: i32,
    blend_mode: u32,
)
    requires
        blend_mode != 2 && clip_top < clip_bottom ==> {
            &&& 0 <= clip_left <= clip_right
            &&& 0 <= clip_top
            &&& 0 <= src_x
            &&& 0 <= src_y
            &&& clip_left / 8 + (clip_right - clip_left) / 8 <= dst_stride
            &&& forall|r: int|
                clip_top <= r < clip_bottom ==> #[trigger] (r * dst_stride) + clip_left / 8 + (
                clip_right - clip_left) / 8 <= old(dst)@.len() && (src_y + (r - clip_top))
                * src_stride + src_x / 8 + (clip_right - clip_left) / 8 <= src@.len()
        },
    ensures
        final(dst)@.len() == old(dst)@.len(),
        forall|k: int|
            0 <= k < old(dst)@.len() ==> #[trigger] final(dst)@[k] == aligned_value(
                old(dst)@,
                dst_stride as int,
                src@,
                src_stride as int,
                clip_top as int,
                clip_bottom as int,
                clip_left / 8,
                src_x / 8,
                (clip_right - clip_left) / 8,
                src_y as int,
                blend_mode,
                clip_bottom as int,
                0,
                k,
            ),
{
    let ghost old_dst = dst@;
    let ghost ds = dst_stride as int;
    if blend_mode == 2 || clip_top >= clip_bottom {
        proof {
            assert forall|k: int| 0 <= k < old_dst.len() implies #[trigger] dst@[k] == aligned_value(
                old_dst,
                ds,
                src@,
                src_stride as int,
                clip_top as int,
                clip_bottom as int,
                clip_left / 8,
                src_x / 8,
                (clip_right - clip_left) / 8,
                src_y as int,
                blend_mode,
                clip_bottom as int,
                0,
                k,
            ) by {}
        }
        return ;
    }
    let byte_width: usize = ((clip_right - clip_left) / 8) as usize;
    let dst_byte_x: usize = (clip_left / 8) as usize;
    let src_byte_x: usize = (src_x / 8) as usize;
    let ghost bw = byte_width as int;
    let ghost dbx = dst_byte_x as int;
    let ghost sbx = src_byte_x as int;
    let dst_len: usize = dst.len();
    let src_len: usize = src.len();
    let mut row: i32 = clip_top;
    while row < clip_bottom
        invariant
            blend_mode != 2,
            clip_top <= row <= clip_bottom,
            0 <= clip_top,
            0 <= clip_left <= clip_right,
            0 <= src_x,
            0 <= src_y,
            bw == (clip_right - clip_left) / 8,
            dbx == clip_left / 8,
            sbx == src_x / 8,
            bw == byte_width,
            dbx == dst_byte_x,
            sbx == src_byte_x,
            dbx + bw <= dst_stride,
            ds == dst_stride,
            old_dst == old(dst)@,
            dst_len == old_dst.len(),
            src_len == src@.len(),
            dst@.len() == old_dst.len(),
            forall|r: int|
                clip_top <= r < clip_bottom ==> #[trigger] (r * dst_stride) + dbx + bw <= old_dst.len()
                    && (src_y + (r - clip_top)) * src_stride + sbx + bw <= src@.len(),
            forall|k: int|
                0 <= k < old_dst.len() ==> #[trigger] dst@[k] == aligned_value(
                    old_dst,
                    ds,
                    src@,
                    src_stride as int,
                    clip_top as int,
                    clip_bottom as int,
                    dbx,
                    sbx,
                    bw,
                    src_y as int,
                    blend_mode,
                    row as int,
                    0,
                    k,
                ),
        decreases clip_bottom - row,
    {
        assert((row * dst_stride) + dbx + bw <= old_dst.len());
        let src_row: i64 = src_y as i64 + (row as i64 - clip_top as i64);
        assert((src_row * src_stride) + sbx + bw <= src@.len());
        proof {
            assert(row as u64 as int == row as int);
            assert(src_row as u64 as int == src_row as int);
            assert(dst_len as int <= u64::MAX);
            assert(src_len as int <= u64::MAX);
        }
        let dst_off64: u64 = (row as u64) * (dst_stride as u64) + dst_byte_x as u64;
        let src_off64: u64 = (src_row as u64) * (src_stride as u64) + src_byte_x as u64;
        let dst_off: usize = dst_off64 as usize;
        let src_off: usize = src_off64 as usize;
        let mut i: usize = 0;
        while i < byte_width
            invariant
                blend_mode != 2,
                clip_top <= row < clip_bottom,
                0 <= i <= bw,
                bw == byte_width,
                dbx == dst_byte_x,
                sbx == src_byte_x,
                dbx + bw <= dst_stride,
                ds == dst_stride,
                dst_off == row * dst_stride + dbx,
                src_off == (src_y + (row - clip_top)) * src_stride + sbx,
                dst_off + bw <= old_dst.len(),
                src_off + bw <= src@.len(),
                dst_len == old_dst.len(),
                src_len == src@.len(),
                dst@.len() == old_dst.len(),
                forall|k: int|
                    0 <= k < old_dst.len() ==> #[trigger] dst@[k] == aligned_value(
                        old_dst,
                        ds,
                        src@,
                        src_stride as int,
                        clip_top as int,
                        clip_bottom as int,
                        dbx,
                        sbx,
                        bw,
                        src_y as int,
                        blend_mode,
                        row as int,
                        i as int,
                        k,
                    ),
            decreases bw - i,
        {
            let di: usize = dst_off + i;
            proof {
                lemma_row_col(di as int, row as int, dbx + i, ds);
            }
            let sv: u8 = src[src_off + i];
            if blend_mode == 0 {
                dst[di] = sv;
            } else {
                dst[di] = dst[di] | sv;
            }
            proof {
                assert forall|k: int| 0 <= k < old_dst.len() implies #[trigger] dst@[k]
                    == aligned_value(
                    old_dst,
                    ds,
                    src@,
                    src_stride as int,
                    clip_top as int,
                    clip_bottom as int,
                    dbx,
                    sbx,
                    bw,
                    src_y as int,
                    blend_mode,
                    row as int,
                    i + 1,
                    k,
                ) by {
                    vstd::arithmetic::div_mod::lemma_fundamental_div_mod(k, ds);
                    let ri = k / ds;
                    let ci = k % ds;
                    if ri == row as int && ci == dbx + i {
                        assert(ds * ri == ri * ds) by (nonlinear_arith);
                        assert(k == di as int);
                    }
                }
            }
            i = i + 1;
        }
        row = row + 1;
    }
}

} // verus!
