//! Clipping and layout decisions of the display's drawing primitives.
//!
//! Each function here takes the display state it reads as plain values and
//! returns what is to be drawn where; the pixel writes themselves happen on
//! the game's surfaces.
use vstd::prelude::*;
use vstd::arithmetic::div_mod::{
    lemma_mod_add_multiples_vanish, lemma_mod_sub_multiples_vanish, lemma_small_mod,
};
use crate::fixed::{Fixed, wrap_i32};
use crate::layer_sprite::LayerSprite;

verus! {

/// A clip rectangle in screen pixels: `[x1, x2) × [y1, y2)`.
#[derive(Clone, Copy, PartialEq, Eq, Structural, Debug)]
pub struct ClipRect {
    pub x1: i32,
    pub y1: i32,
    pub x2: i32,
    pub y2: i32,
}

/// The clip rectangle as mirrored onto a pixel layer (unsigned bounds).
#[derive(Clone, Copy, PartialEq, Eq, Structural, Debug)]
pub struct LayerClip {
    pub left: u32,
    pub top: u32,
    pub right: u32,
    pub bottom: u32,
}

/// `v`, raised to zero when negative.
pub open spec fn at_least_zero(v: int) -> int {
    if v < 0 {
        0
    } else {
        v
    }
}

/// `v`, lowered to `hi` when above it.
pub open spec fn at_most(v: int, hi: int) -> int {
    if v > hi {
        hi
    } else {
        v
    }
}

pub open spec fn max_int(a: int, b: int) -> int {
    if a >= b {
        a
    } else {
        b
    }
}

pub open spec fn min_int(a: int, b: int) -> int {
    if a <= b {
        a
    } else {
        b
    }
}

pub open spec fn fits_i32(v: int) -> bool {
    i32::MIN <= v <= i32::MAX
}

/// The layer bound for a display bound `v`: its unsigned reading, or the
/// layer's extent when `v` lies beyond it.
pub open spec fn layer_bound(v: i32, extent: u32) -> u32 {
    if v > extent as i32 {
        extent
    } else {
        v as u32
    }
}

/// Set the clip rectangle from fixed-point corners.
///
/// The corners are cut to whole pixels; the display rectangle is clamped
/// to `[0, display_width] × [0, display_height]`, and the layer's copy is
/// additionally clamped to the layer's own size.
pub fn set_clip_rect(
    x1: Fixed,
    y1: Fixed,
    x2: Fixed,
    y2: Fixed,
    display_width: u32,
    display_height: u32,
    layer_width: u32,
    layer_height: u32,
) -> (r: (ClipRect, LayerClip))
    ensures
        r.0.x1 == at_least_zero(x1.0 / 0x10000),
        r.0.y1 == at_least_zero(y1.0 / 0x10000),
        r.0.x2 == at_most(x2.0 / 0x10000, (display_width as i32) as int),
        r.0.y2 == at_most(y2.0 / 0x10000, (display_height as i32) as int),
        r.1 == mirrored_clip(r.0, layer_width, layer_height),
{
    let mut cx1 = x1.to_int();
    let mut cy1 = y1.to_int();
    let mut cx2 = x2.to_int();
    let mut cy2 = y2.to_int();
    if cx1 < 0 {
        cx1 = 0;
    }
    if cy1 < 0 {
        cy1 = 0;
    }
    if cx2 > display_width as i32 {
        cx2 = display_width as i32;
    }
    if cy2 > display_height as i32 {
        cy2 = display_height as i32;
    }
    let clip = ClipRect { x1: cx1, y1: cy1, x2: cx2, y2: cy2 };
    (clip, mirror_clip(clip, layer_width, layer_height))
}

/// The clip rectangle mirrored onto a layer of `width × height` pixels:
/// negative bounds become 0, bounds beyond the layer become its size.
pub open spec fn mirrored_clip(clip: ClipRect, width: u32, height: u32) -> LayerClip {
    LayerClip {
        left: if clip.x1 < 0 {
            0
        } else {
            clip.x1 as u32
        },
        top: if clip.y1 < 0 {
            0
        } else {
            clip.y1 as u32
        },
        right: layer_bound(clip.x2, width),
        bottom: layer_bound(clip.y2, height),
    }
}

/// Mirror the clip rectangle onto a layer of `width × height` pixels.
pub fn mirror_clip(clip: ClipRect, width: u32, height: u32) -> (r: LayerClip)
    ensures
        r == mirrored_clip(clip, width, height),
{
    LayerClip {
        left: if clip.x1 < 0 {
            0
        } else {
            clip.x1 as u32
        },
        top: if clip.y1 < 0 {
            0
        } else {
            clip.y1 as u32
        },
        right: if clip.x2 > width as i32 {
            width
        } else {
            clip.x2 as u32
        },
        bottom: if clip.y2 > height as i32 {
            height
        } else {
            clip.y2 as u32
        },
    }
}

/// The drawing layer's geometry while the screen is locked for writing.
#[derive(Clone, Copy, PartialEq, Eq, Structural, Debug)]
pub struct LockedLayer {
    pub width: u32,
    pub height: u32,
    pub clip: LayerClip,
}

/// Layer geometry on taking the render lock: a layer drawing into the
/// screen's own buffer takes the frame buffer's size; then the display's
/// clip rectangle is mirrored onto the layer.
pub fn acquire_render_lock(
    external_buffer: bool,
    layer_width: u32,
    layer_height: u32,
    fb_width: u32,
    fb_height: u32,
    clip: ClipRect,
) -> (r: LockedLayer)
    ensures
        r.width == (if external_buffer {
            fb_width
        } else {
            layer_width
        }),
        r.height == (if external_buffer {
            fb_height
        } else {
            layer_height
        }),
        r.clip == mirrored_clip(clip, r.width, r.height),
{
    let (width, height) = if external_buffer {
        (fb_width, fb_height)
    } else {
        (layer_width, layer_height)
    };
    LockedLayer { width, height, clip: mirror_clip(clip, width, height) }
}

/// An on-screen rectangle to fill: origin and size.
#[derive(Clone, Copy, PartialEq, Eq, Structural, Debug)]
pub struct FillArea {
    pub left: i32,
    pub top: i32,
    pub width: i32,
    pub height: i32,
}

/// Whether the span `[lo, hi)` misses the clip span `[c1, c2)` entirely.
pub open spec fn span_misses(lo: int, hi: int, c1: int, c2: int) -> bool {
    hi <= c1 || lo >= c2
}

/// The part of `[lo, hi)` inside `[c1, c2)`, as (start, length).
pub open spec fn span_clipped(lo: int, hi: int, c1: int, c2: int) -> (int, int) {
    (max_int(lo, c1), min_int(hi, c2) - max_int(lo, c1))
}

/// Fill-rectangle clipping: the corners `(x1, y1)`–`(x2, y2)` are moved by
/// the camera offset and cut to the clip rectangle. `None` when nothing of
/// the rectangle is inside it.
pub fn fill_rect(
    x1: i32,
    y1: i32,
    x2: i32,
    y2: i32,
    camera_x: i32,
    camera_y: i32,
    clip: ClipRect,
) -> (r: Option<FillArea>)
    requires
        fits_i32(x1 + camera_x),
        fits_i32(y1 + camera_y),
        fits_i32(x2 + camera_x),
        fits_i32(y2 + camera_y),
        fits_i32(span_clipped(x1 + camera_x, x2 + camera_x, clip.x1 as int, clip.x2 as int).1),
        fits_i32(span_clipped(y1 + camera_y, y2 + camera_y, clip.y1 as int, clip.y2 as int).1),
    ensures
        r is None <==> (span_misses(x1 + camera_x, x2 + camera_x, clip.x1 as int, clip.x2 as int)
            || span_misses(y1 + camera_y, y2 + camera_y, clip.y1 as int, clip.y2 as int)),
        r matches Some(a) ==> {
            let h = span_clipped(x1 + camera_x, x2 + camera_x, clip.x1 as int, clip.x2 as int);
            let v = span_clipped(y1 + camera_y, y2 + camera_y, clip.y1 as int, clip.y2 as int);
            a.left == h.0 && a.width == h.1 && a.top == v.0 && a.height == v.1
        },
{
    let mut left = x1 + camera_x;
    let mut top = y1 + camera_y;
    let mut right = x2 + camera_x;
    let mut bottom = y2 + camera_y;
    if right <= clip.x1 || bottom <= clip.y1 || left >= clip.x2 || top >= clip.y2 {
        return None;
    }
    if left < clip.x1 {
        left = clip.x1;
    }
    if top < clip.y1 {
        top = clip.y1;
    }
    if right > clip.x2 {
        right = clip.x2;
    }
    if bottom > clip.y2 {
        bottom = clip.y2;
    }
    Some(FillArea { left, top, width: right - left, height: bottom - top })
}

/// A clipped bitmap blit: where it lands, where it reads from, its size and
/// the blit flags.
#[derive(Clone, Copy, PartialEq, Eq, Structural, Debug)]
pub struct BitmapBlit {
    pub dst_x: i32,
    pub dst_y: i32,
    pub src_x: i32,
    pub src_y: i32,
    pub width: i32,
    pub height: i32,
    pub flags: u32,
}

/// Bitmap-blit clipping: the `width × height` block at `(dst_x, dst_y)` is
/// cut to the clip rectangle. `None` when nothing is left of it; otherwise
/// the surviving block, its offset inside the bitmap, and `flags` with the
/// clipped-blit bit (bit 0) set.
pub fn blit_bitmap_clipped(
    dst_x: i32,
    dst_y: i32,
    width: i32,
    height: i32,
    flags: u32,
    clip: ClipRect,
) -> (r: Option<BitmapBlit>)
    requires
        fits_i32(dst_x + width),
        fits_i32(dst_y + height),
        fits_i32(span_clipped(dst_x as int, dst_x + width, clip.x1 as int, clip.x2 as int).1),
        fits_i32(span_clipped(dst_y as int, dst_y + height, clip.y1 as int, clip.y2 as int).1),
        fits_i32(max_int(dst_x as int, clip.x1 as int) - dst_x),
        fits_i32(max_int(dst_y as int, clip.y1 as int) - dst_y),
    ensures
        ({
            let h = span_clipped(dst_x as int, dst_x + width, clip.x1 as int, clip.x2 as int);
            let v = span_clipped(dst_y as int, dst_y + height, clip.y1 as int, clip.y2 as int);
            &&& r is None <==> (span_misses(dst_x as int, dst_x + width, clip.x1 as int, clip.x2 as int)
                || span_misses(dst_y as int, dst_y + height, clip.y1 as int, clip.y2 as int)
                || h.1 == 0 || v.1 == 0)
            &&& r matches Some(b) ==> (b.dst_x == h.0 && b.width == h.1 && b.dst_y == v.0
                && b.height == v.1 && b.src_x == h.0 - dst_x && b.src_y == v.0 - dst_y
                && b.flags == flags | 1)
        }),
{
    let dst_x2 = dst_x + width;
    let dst_y2 = dst_y + height;
    if dst_x >= clip.x2 || dst_x2 <= clip.x1 || dst_y >= clip.y2 || dst_y2 <= clip.y1 {
        return None;
    }
    let new_left = if clip.x1 >= dst_x { clip.x1 } else { dst_x };
    let new_right = if clip.x2 <= dst_x2 { clip.x2 } else { dst_x2 };
    let new_top = if clip.y1 >= dst_y { clip.y1 } else { dst_y };
    let new_bottom = if clip.y2 <= dst_y2 { clip.y2 } else { dst_y2 };
    if new_left == new_right || new_top == new_bottom {
        return None;
    }
    Some(BitmapBlit {
        dst_x: new_left,
        dst_y: new_top,
        src_x: new_left - dst_x,
        src_y: new_top - dst_y,
        width: new_right - new_left,
        height: new_bottom - new_top,
        flags: flags | 1,
    })
}

/// Whether `start` is where a horizontal tiling with tiles of
/// `tile_width` that passes through `initial_x` begins: the tile origin at
/// or just left of the clip's left edge.
pub open spec fn tiling_start(start: int, initial_x: int, tile_width: int, clip_x1: int) -> bool {
    clip_x1 - tile_width < start <= clip_x1 && (start - initial_x) % tile_width == 0
}

/// Horizontal tiling of a bitmap across the clip rectangle's width.
///
/// Returns the first tile origin and the x origins of the tiles to blit:
/// the origins `start, start + tile_width, ...` that lie left of the clip's
/// right edge. Each tile is then blitted clipped, `tile_width` wide.
pub fn blit_bitmap_tiled(initial_x: i32, tile_width: i32, clip: ClipRect) -> (r: (i32, Vec<i32>))
    requires
        tile_width > 0,
        fits_i32(clip.x1 + tile_width),
        fits_i32(clip.x1 - tile_width),
        fits_i32(clip.x2 + tile_width),
    ensures
        tiling_start(r.0 as int, initial_x as int, tile_width as int, clip.x1 as int),
        r.1.len() == 0 <==> r.0 >= clip.x2,
        r.1.len() > 0 ==> r.1[0] == r.0,
        forall|k: int| 0 <= k < r.1.len() ==> #[trigger] r.1[k] < clip.x2,
        forall|k: int| 0 <= k < r.1.len() - 1 ==> #[trigger] r.1[k + 1] == r.1[k] + tile_width,
        r.1.len() > 0 ==> r.1[r.1.len() - 1] + tile_width >= clip.x2,
{
    let mut x = initial_x;
    proof {
        lemma_small_mod(0, tile_width as nat);
    }
    while x < clip.x1
        invariant
            (x - initial_x) % (tile_width as int) == 0,
            tile_width > 0,
            fits_i32(clip.x1 + tile_width),
        decreases at_least_zero(clip.x1 - x),
    {
        proof {
            lemma_mod_add_multiples_vanish(x - initial_x, tile_width as int);
        }
        x = x + tile_width;
    }
    while x > clip.x1
        invariant
            (x - initial_x) % (tile_width as int) == 0,
            x + tile_width > clip.x1,
            tile_width > 0,
            fits_i32(clip.x1 - tile_width),
        decreases at_least_zero(x - clip.x1),
    {
        proof {
            lemma_mod_sub_multiples_vanish(x - initial_x, tile_width as int);
        }
        x = x - tile_width;
    }
    let start = x;
    let mut xs: Vec<i32> = Vec::new();
    while x < clip.x2
        invariant
            start <= x,
            xs.len() == 0 ==> x == start,
            xs.len() > 0 ==> xs[0] == start && x == xs[xs.len() - 1] + tile_width,
            forall|k: int| 0 <= k < xs.len() ==> #[trigger] xs[k] < clip.x2,
            forall|k: int| 0 <= k < xs.len() - 1 ==> #[trigger] xs[k + 1] == xs[k] + tile_width,
            tile_width > 0,
            fits_i32(clip.x2 + tile_width),
        decreases at_least_zero(clip.x2 - x),
    {
        xs.push(x);
        x = x + tile_width;
    }
    (start, xs)
}

/// The tile grid of the terrain layer: its full size and the size of one
/// tile bitmap.
#[derive(Clone, Copy, PartialEq, Eq, Structural, Debug)]
pub struct TerrainGrid {
    pub total_width: i32,
    pub total_height: i32,
    pub col_width: i32,
    pub row_height: i32,
}

/// One terrain tile to blit: placement, size, and the index of the tile
/// bitmap (tiles are numbered row by row).
#[derive(Clone, Copy, PartialEq, Eq, Structural, Debug)]
pub struct TerrainBlit {
    pub x: i32,
    pub y: i32,
    pub width: i32,
    pub height: i32,
    pub bitmap_index: u32,
}

/// The tiles of one terrain row from column offset `xo` on, numbered from
/// `idx`.
pub open spec fn terrain_cols(px: int, y: int, h: int, xo: int, tw: int, cw: int, idx: int) -> Seq<
    TerrainBlit,
>
    decreases at_least_zero(tw - xo),
{
    if xo >= tw || cw <= 0 {
        Seq::empty()
    } else {
        seq![
            TerrainBlit {
                x: (px + xo) as i32,
                y: y as i32,
                width: min_int(cw, tw - xo) as i32,
                height: h as i32,
                bitmap_index: idx as u32,
            },
        ] + terrain_cols(px, y, h, xo + cw, tw, cw, idx + 1)
    }
}

/// The number of tiles in a terrain row from column offset `xo` on.
pub open spec fn terrain_col_count(xo: int, tw: int, cw: int) -> nat
    decreases at_least_zero(tw - xo),
{
    if xo >= tw || cw <= 0 {
        0
    } else {
        1 + terrain_col_count(xo + cw, tw, cw)
    }
}

/// The tiles of the terrain rows from row offset `yo` up to the row limit,
/// numbered from `idx`.
pub open spec fn terrain_rows(px: int, py: int, yo: int, limit: int, g: TerrainGrid, idx: int) -> Seq<
    TerrainBlit,
>
    decreases at_least_zero(limit - yo),
{
    if yo >= limit || g.row_height <= 0 {
        Seq::empty()
    } else {
        let row = terrain_cols(
            px,
            py + yo,
            min_int(g.row_height as int, limit - yo),
            0,
            g.total_width as int,
            g.col_width as int,
            idx,
        );
        row + terrain_rows(px, py, yo + g.row_height, limit, g, idx + row.len())
    }
}

/// Whether a terrain draw request does any work: a positive row count,
/// the only supported mode (1) in the low half of `flags`, and a loaded
/// tile set.
pub open spec fn terrain_active(count: i32, flags: u32, has_tiles: bool) -> bool {
    count > 0 && flags & 0xffff == 1 && has_tiles
}

/// The full tile list of a terrain draw at pixel origin `(px, py)`.
pub open spec fn terrain_plan(px: int, py: int, count: int, g: TerrainGrid) -> Seq<TerrainBlit> {
    terrain_rows(px, py, 0, min_int(count, g.total_height as int), g, 0)
}

proof fn lemma_terrain_cols_len(px: int, y: int, h: int, xo: int, tw: int, cw: int, idx: int)
    ensures
        terrain_cols(px, y, h, xo, tw, cw, idx).len() == terrain_col_count(xo, tw, cw),
    decreases at_least_zero(tw - xo),
{
    if !(xo >= tw || cw <= 0) {
        lemma_terrain_cols_len(px, y, h, xo + cw, tw, cw, idx + 1);
    }
}

/// Terrain drawing: the terrain tile grid is laid out row by row from the
/// camera-adjusted pixel position of `(x, y)`, covering at most `count`
/// pixel rows; tiles at the right and bottom edges are cut to what is left.
///
/// Returns the blit flags for every tile (bit 1 set unless bit 20 of
/// `flags` is) and the tiles in drawing order; no tiles unless the request
/// is active.
pub fn draw_tiled_terrain(
    camera_x: i32,
    camera_y: i32,
    x: Fixed,
    y: Fixed,
    count: i32,
    flags: u32,
    has_tiles: bool,
    grid: TerrainGrid,
) -> (r: (u32, Vec<TerrainBlit>))
    requires
        terrain_active(count, flags, has_tiles) ==> {
            let px = camera_x + x.0 / 0x10000;
            let py = camera_y + y.0 / 0x10000;
            &&& fits_i32(px)
            &&& fits_i32(py)
            &&& fits_i32(px + grid.total_width)
            &&& fits_i32(py + grid.total_height)
            &&& fits_i32(grid.total_width + grid.col_width)
            &&& fits_i32(grid.total_height + grid.row_height)
            &&& grid.total_height > 0 ==> grid.row_height > 0
            &&& grid.total_width > 0 ==> grid.col_width > 0
            &&& terrain_plan(px, py, count as int, grid).len() <= u32::MAX
        },
    ensures
        r.0 == (!flags >> 19u32) & 2,
        r.1@ == (if terrain_active(count, flags, has_tiles) {
            terrain_plan(camera_x + x.0 / 0x10000, camera_y + y.0 / 0x10000, count as int, grid)
        } else {
            Seq::empty()
        }),
{
    let blit_flags = (!flags >> 19u32) & 2;
    let mut out: Vec<TerrainBlit> = Vec::new();
    if count <= 0 || flags & 0xffff != 1 || !has_tiles {
        return (blit_flags, out);
    }
    let limit = if count > grid.total_height {
        grid.total_height
    } else {
        count
    };
    let px = camera_x + x.to_int();
    let py = camera_y + y.to_int();
    let ghost full = terrain_plan(px as int, py as int, count as int, grid);
    if grid.total_height <= 0 {
        assert(full =~= Seq::<TerrainBlit>::empty());
        return (blit_flags, out);
    }
    let tw = grid.total_width;
    let cw = grid.col_width;
    let rh = grid.row_height;
    let mut yo: i32 = 0;
    assert(out@ + terrain_rows(px as int, py as int, 0, limit as int, grid, 0) =~= full);
    while yo < limit
        invariant
            0 <= yo,
            rh == grid.row_height,
            rh > 0,
            tw == grid.total_width,
            cw == grid.col_width,
            tw > 0 ==> cw > 0,
            limit <= grid.total_height,
            fits_i32(px + tw),
            fits_i32(py + grid.total_height),
            fits_i32(tw + cw),
            fits_i32(grid.total_height + rh),
            full.len() <= u32::MAX,
            out@ + terrain_rows(px as int, py as int, yo as int, limit as int, grid, out.len() as int)
                == full,
        decreases at_least_zero(limit - yo),
    {
        let row_h = if limit - yo < rh {
            limit - yo
        } else {
            rh
        };
        let ghost n0 = out.len() as int;
        let ghost row = terrain_cols(px as int, py + yo, row_h as int, 0, tw as int, cw as int, n0);
        let ghost rest = terrain_rows(px as int, py as int, yo + rh, limit as int, grid, n0 + row.len());
        proof {
            lemma_terrain_cols_len(px as int, py + yo, row_h as int, 0, tw as int, cw as int, n0);
        }
        let mut xo: i32 = 0;
        while xo < tw
            invariant
                0 <= xo,
                0 <= yo < limit,
                tw == grid.total_width,
                cw == grid.col_width,
                tw > 0 ==> cw > 0,
                limit <= grid.total_height,
                fits_i32(px + tw),
                fits_i32(py + grid.total_height),
                fits_i32(tw + cw),
                full.len() <= u32::MAX,
                out.len() + terrain_col_count(xo as int, tw as int, cw as int) == n0 + row.len(),
                out@ + terrain_cols(px as int, py + yo, row_h as int, xo as int, tw as int, cw as int, out.len() as int)
                    + rest == full,
            decreases at_least_zero(tw - xo),
        {
            let ghost tail = terrain_cols(px as int, py + yo, row_h as int, xo + cw, tw as int, cw as int, out.len() + 1);
            proof {
                lemma_terrain_cols_len(px as int, py + yo, row_h as int, xo as int, tw as int, cw as int, out.len() as int);
                assert(out.len() < full.len());
            }
            let col_w = if cw <= tw - xo {
                cw
            } else {
                tw - xo
            };
            let b = TerrainBlit {
                x: px + xo,
                y: py + yo,
                width: col_w,
                height: row_h,
                bitmap_index: out.len() as u32,
            };
            let ghost before = out@;
            out.push(b);
            proof {
                assert(before + (seq![b] + tail) + rest =~= out@ + tail + rest);
            }
            xo = xo + cw;
        }
        proof {
            assert(out@ + terrain_cols(px as int, py + yo, row_h as int, xo as int, tw as int, cw as int, out.len() as int)
                =~= out@);
        }
        yo = yo + rh;
    }
    (blit_flags, out)
}

/// A pixel write: position and palette index.
pub type PixelWrite = (i32, i32, u8);

/// The pixels of a crosshair at `(cx, cy)`: a 2×2 block of `fg` with an
/// eight-pixel `bg` outline, outline first.
pub open spec fn crosshair_pixels(cx: int, cy: int, fg: u8, bg: u8) -> Seq<PixelWrite> {
    seq![
        (cx as i32, (cy - 1) as i32, bg),
        ((cx + 1) as i32, (cy - 1) as i32, bg),
        ((cx - 1) as i32, cy as i32, bg),
        ((cx + 2) as i32, cy as i32, bg),
        ((cx - 1) as i32, (cy + 1) as i32, bg),
        ((cx + 2) as i32, (cy + 1) as i32, bg),
        (cx as i32, (cy + 2) as i32, bg),
        ((cx + 1) as i32, (cy + 2) as i32, bg),
        (cx as i32, cy as i32, fg),
        ((cx + 1) as i32, cy as i32, fg),
        (cx as i32, (cy + 1) as i32, fg),
        ((cx + 1) as i32, (cy + 1) as i32, fg),
    ]
}

/// Crosshair marker at `(x, y)` (camera-adjusted), as the clipped pixel
/// writes to make, in order; colours are cut to their low byte.
pub fn draw_crosshair(x: i32, y: i32, camera_x: i32, camera_y: i32, color_fg: u32, color_bg: u32) -> (r:
    Vec<PixelWrite>)
    requires
        fits_i32(x + camera_x - 1),
        fits_i32(x + camera_x + 2),
        fits_i32(y + camera_y - 1),
        fits_i32(y + camera_y + 2),
    ensures
        r@ == crosshair_pixels(x + camera_x, y + camera_y, color_fg as u8, color_bg as u8),
{
    let cx = x + camera_x;
    let cy = y + camera_y;
    let bg = color_bg as u8;
    let fg = color_fg as u8;
    let r = vec![
        (cx, cy - 1, bg),
        (cx + 1, cy - 1, bg),
        (cx - 1, cy, bg),
        (cx + 2, cy, bg),
        (cx - 1, cy + 1, bg),
        (cx + 2, cy + 1, bg),
        (cx, cy + 2, bg),
        (cx + 1, cy + 2, bg),
        (cx, cy, fg),
        (cx + 1, cy, fg),
        (cx, cy + 1, fg),
        (cx + 1, cy + 1, fg),
    ];
    assert(r@ =~= crosshair_pixels(cx as int, cy as int, fg, bg));
    r
}

/// The pixels of an outlined dot at `(cx, cy)`: when `bg` is drawn, its
/// four neighbours (left, right, above, below) first, then the centre in
/// `fg`.
pub open spec fn outlined_pixel_pixels(cx: int, cy: int, fg: u8, bg: u8, with_bg: bool) -> Seq<PixelWrite> {
    let centre = seq![(cx as i32, cy as i32, fg)];
    if with_bg {
        seq![
            ((cx - 1) as i32, cy as i32, bg),
            ((cx + 1) as i32, cy as i32, bg),
            (cx as i32, (cy - 1) as i32, bg),
            (cx as i32, (cy + 1) as i32, bg),
        ] + centre
    } else {
        centre
    }
}

/// Outlined dot at `(x, y)` (camera-adjusted), as the clipped pixel writes
/// to make; the outline is drawn only for a non-zero `color_bg`.
pub fn draw_outlined_pixel(x: i32, y: i32, camera_x: i32, camera_y: i32, color_fg: u32, color_bg: i32) -> (r:
    Vec<PixelWrite>)
    requires
        fits_i32(x + camera_x - 1),
        fits_i32(x + camera_x + 1),
        fits_i32(y + camera_y - 1),
        fits_i32(y + camera_y + 1),
    ensures
        r@ == outlined_pixel_pixels(
            x + camera_x,
            y + camera_y,
            color_fg as u8,
            color_bg as u8,
            color_bg != 0,
        ),
{
    let cx = x + camera_x;
    let cy = y + camera_y;
    let mut r: Vec<PixelWrite> = Vec::new();
    if color_bg != 0 {
        let bg = color_bg as u8;
        r.push((cx - 1, cy, bg));
        r.push((cx + 1, cy, bg));
        r.push((cx, cy - 1, bg));
        r.push((cx, cy + 1, bg));
    }
    r.push((cx, cy, color_fg as u8));
    assert(r@ =~= outlined_pixel_pixels(
        cx as int,
        cy as int,
        color_fg as u8,
        color_bg as u8,
        color_bg != 0,
    ));
    r
}

/// The `k`-th position of a fixed-point walk from `start` in steps of
/// `step` (32-bit wrapping).
pub open spec fn walk_at(start: i32, step: i32, k: nat) -> i32
    decreases k,
{
    if k == 0 {
        start
    } else {
        wrap_i32(walk_at(start, step, (k - 1) as nat) + step)
    }
}

/// Pixel strip: `count + 1` pixels along a fixed-point walk from the
/// camera-adjusted `(x, y)` in steps of `(dx, dy)`, each at the whole part
/// of the walk's position; none for a negative `count`.
pub fn draw_pixel_strip(
    camera_x: i32,
    camera_y: i32,
    x: Fixed,
    y: Fixed,
    dx: Fixed,
    dy: Fixed,
    count: i32,
    color: u32,
) -> (r: Vec<PixelWrite>)
    ensures
        r.len() == (if count >= 0 {
            count + 1
        } else {
            0
        }),
        forall|k: int|
            0 <= k < r.len() ==> #[trigger] r[k] == (
                (walk_at(wrap_i32(wrap_i32(camera_x * 0x10000) + x.0), dx.0, k as nat) / 0x10000) as i32,
                (walk_at(wrap_i32(wrap_i32(camera_y * 0x10000) + y.0), dy.0, k as nat) / 0x10000) as i32,
                color as u8,
            ),
{
    let mut cx = Fixed::from_int(camera_x).wrapping_add(x);
    let mut cy = Fixed::from_int(camera_y).wrapping_add(y);
    let ghost sx = cx.0;
    let ghost sy = cy.0;
    let mut r: Vec<PixelWrite> = Vec::new();
    if count < 0 {
        return r;
    }
    let n: usize = count as usize + 1;
    while r.len() < n
        invariant
            n == count + 1,
            r.len() <= n,
            cx.0 == walk_at(sx, dx.0, r.len() as nat),
            cy.0 == walk_at(sy, dy.0, r.len() as nat),
            forall|k: int|
                0 <= k < r.len() ==> #[trigger] r[k] == (
                    (walk_at(sx, dx.0, k as nat) / 0x10000) as i32,
                    (walk_at(sy, dy.0, k as nat) / 0x10000) as i32,
                    color as u8,
                ),
        decreases n - r.len(),
    {
        let p = (cx.to_int(), cy.to_int(), color as u8);
        r.push(p);
        cx = cx.wrapping_add(dx);
        cy = cy.wrapping_add(dy);
    }
    r
}

/// Polygon outline preparation: the first `count` points (raw fixed-point
/// `x, y` pairs) moved by the camera offset. `None` when `count` is not
/// in `1..=256`, the most the polygon filler takes.
pub fn draw_polyline(points: &[i32], count: i32, camera_x: i32, camera_y: i32) -> (r: Option<
    Vec<(Fixed, Fixed)>,
>)
    requires
        1 <= count <= 256 ==> points.len() >= 2 * count,
    ensures
        r is None <==> !(1 <= count <= 256),
        r matches Some(v) ==> {
            &&& v.len() == count
            &&& forall|i: int|
                0 <= i < v.len() ==> #[trigger] v[i] == (
                    Fixed(wrap_i32(points[2 * i] + wrap_i32(camera_x * 0x10000))),
                    Fixed(wrap_i32(points[2 * i + 1] + wrap_i32(camera_y * 0x10000))),
                )
        },
{
    if count <= 0 || count > 256 {
        return None;
    }
    let cam_x = Fixed::from_int(camera_x);
    let cam_y = Fixed::from_int(camera_y);
    let n = count as usize;
    let mut verts: Vec<(Fixed, Fixed)> = Vec::new();
    while verts.len() < n
        invariant
            n == count,
            1 <= count <= 256,
            points.len() >= 2 * count,
            verts.len() <= n,
            cam_x.0 == wrap_i32(camera_x * 0x10000),
            cam_y.0 == wrap_i32(camera_y * 0x10000),
            forall|i: int|
                0 <= i < verts.len() ==> #[trigger] verts[i] == (
                    Fixed(wrap_i32(points[2 * i] + cam_x.0)),
                    Fixed(wrap_i32(points[2 * i + 1] + cam_y.0)),
                ),
        decreases n - verts.len(),
    {
        let i = verts.len();
        let vx = Fixed::from_raw(points[2 * i]).wrapping_add(cam_x);
        let vy = Fixed::from_raw(points[2 * i + 1]).wrapping_add(cam_y);
        verts.push((vx, vy));
    }
    Some(verts)
}

/// The animation parameter of a bitmap sprite: the low 16 bits of `anim`
/// taken as they are (flag bit 0), or `anim` read as signed and clamped to
/// `[0, 0xFFFF]`.
pub open spec fn bitmap_anim_param(flags: u16, anim: u32) -> int {
    if flags & 1 != 0 {
        (anim % 0x10000) as int
    } else {
        let p = anim as i32;
        if p < 0 {
            0
        } else if p > 0xffff {
            0xffff
        } else {
            p as int
        }
    }
}

/// The frame a bitmap sprite with `fc` frames shows at parameter `p`
/// (`p / 65536` of the way through): forward, or there and back again
/// (flag bit 1).
pub open spec fn bitmap_frame_index(flags: u16, fc: int, p: int) -> int {
    if flags & 2 != 0 {
        let s = ((2 * fc - 1) * p) / 0x10000;
        if s >= fc {
            2 * fc - s - 1
        } else {
            s
        }
    } else {
        (fc * p) / 0x10000
    }
}

/// What the blitter needs of a bitmap sprite's current frame: its index,
/// the sprite's cell size, and the frame's rectangle.
#[derive(Clone, Copy, PartialEq, Eq, Structural, Debug)]
pub struct BitmapSpriteInfo {
    pub frame_index: usize,
    pub width: i32,
    pub height: i32,
    pub left: i32,
    pub top: i32,
    pub right: i32,
    pub bottom: i32,
}

/// Frame selection of a bitmap sprite for the animation value `anim`.
pub fn get_bitmap_sprite_info(sprite: &LayerSprite, anim: u32) -> (r: BitmapSpriteInfo)
    requires
        1 <= sprite.frames.len() <= 0x7fff,
    ensures
        r.frame_index == bitmap_frame_index(
            sprite.flags,
            sprite.frames.len() as int,
            bitmap_anim_param(sprite.flags, anim),
        ),
        r.frame_index < sprite.frames.len(),
        r.width == sprite.cell_width as i32,
        r.height == sprite.cell_height as i32,
        r.left == sprite.frames[r.frame_index as int].start_x as i32,
        r.top == sprite.frames[r.frame_index as int].start_y as i32,
        r.right == sprite.frames[r.frame_index as int].end_x as i32,
        r.bottom == sprite.frames[r.frame_index as int].end_y as i32,
{
    let flags = sprite.flags;
    let p: u64 = if flags & 1 != 0 {
        (anim % 0x10000) as u64
    } else {
        let s = anim as i32;
        if s < 0 {
            0
        } else if s > 0xffff {
            0xffff
        } else {
            s as u64
        }
    };
    let fc: u64 = sprite.frames.len() as u64;
    let idx: u64 = if flags & 2 != 0 {
        assert((2 * fc - 1) * p <= 0x10000 * 0x10000) by (nonlinear_arith)
            requires
                1 <= fc <= 0x7fff,
                p <= 0xffff,
        ;
        let s = ((2 * fc - 1) * p) / 0x10000;
        assert(s < 2 * fc - 1) by (nonlinear_arith)
            requires
                s == ((2 * fc - 1) * p) / 0x10000,
                1 <= fc,
                p <= 0xffff,
        ;
        if s >= fc {
            2 * fc - s - 1
        } else {
            s
        }
    } else {
        assert(fc * p <= 0x10000 * 0x10000) by (nonlinear_arith)
            requires
                1 <= fc <= 0x7fff,
                p <= 0xffff,
        ;
        let s = (fc * p) / 0x10000;
        assert(s < fc) by (nonlinear_arith)
            requires
                s == (fc * p) / 0x10000,
                1 <= fc,
                p <= 0xffff,
        ;
        s
    };
    let i = idx as usize;
    let f = sprite.frames[i];
    BitmapSpriteInfo {
        frame_index: i,
        width: sprite.cell_width as i32,
        height: sprite.cell_height as i32,
        left: f.start_x as i32,
        top: f.start_y as i32,
        right: f.end_x as i32,
        bottom: f.end_y as i32,
    }
}

/// A clipped span that survives clipping lies inside both the clip span
/// and the unclipped span: what fill and bitmap clipping return never
/// reaches outside the clip rectangle or the source.
pub proof fn lemma_clipped_span_inside(lo: int, hi: int, c1: int, c2: int)
    requires
        !span_misses(lo, hi, c1, c2),
        span_clipped(lo, hi, c1, c2).1 > 0,
    ensures
        c1 <= span_clipped(lo, hi, c1, c2).0,
        lo <= span_clipped(lo, hi, c1, c2).0,
        span_clipped(lo, hi, c1, c2).0 + span_clipped(lo, hi, c1, c2).1 <= c2,
        span_clipped(lo, hi, c1, c2).0 + span_clipped(lo, hi, c1, c2).1 <= hi,
{
}

/// A horizontal tiling covers the clip span: every column from the clip's
/// left edge up to its right edge falls in one of the tiles.
pub proof fn lemma_tiling_covers(start: int, xs: Seq<i32>, tile_width: int, clip_x1: int, clip_x2: int, c: int)
    requires
        tile_width > 0,
        clip_x1 - tile_width < start <= clip_x1,
        xs.len() == 0 <==> start >= clip_x2,
        xs.len() > 0 ==> xs[0] == start,
        forall|k: int| 0 <= k < xs.len() - 1 ==> #[trigger] xs[k + 1] == xs[k] + tile_width,
        xs.len() > 0 ==> xs[xs.len() - 1] + tile_width >= clip_x2,
        clip_x1 <= c < clip_x2,
    ensures
        exists|k: int| 0 <= k < xs.len() && #[trigger] xs[k] <= c < xs[k] + tile_width,
{
    lemma_tiling_covers_from(xs, tile_width, c, 0);
}

proof fn lemma_tiling_covers_from(xs: Seq<i32>, tile_width: int, c: int, k: int)
    requires
        0 <= k < xs.len(),
        xs[k] <= c,
        forall|j: int| 0 <= j < xs.len() - 1 ==> #[trigger] xs[j + 1] == xs[j] + tile_width,
        c < xs[xs.len() - 1] + tile_width,
    ensures
        exists|j: int| 0 <= j < xs.len() && #[trigger] xs[j] <= c < xs[j] + tile_width,
    decreases xs.len() - k,
{
    if c < xs[k] + tile_width {
        assert(xs[k] <= c < xs[k] + tile_width);
    } else {
        assert(k + 1 < xs.len());
        assert(xs[k + 1] == xs[k] + tile_width);
        lemma_tiling_covers_from(xs, tile_width, c, k + 1);
    }
}

} // verus!
