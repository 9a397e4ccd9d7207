//! Layer sprites as stored in a `.dir` archive: a header with a palette,
//! the sprite's metrics, the frame rectangles, and the frames' pixels.
//!
//! Stream layout (little-endian): 4 unused bytes, a 4-byte size, 16-bit
//! header flags, a 16-bit palette count, that many RGB triplets, a 32-bit
//! field, 16-bit flags, signed 16-bit cell width and height, a 16-bit
//! frame count, padding until the bytes left are a multiple of four, then
//! per frame 4 unused bytes and the signed 16-bit start x/y and end x/y,
//! then the pixels of each non-empty frame, row after row.
//!
//! A frame's pixels are read only when the display could give it a surface
//! to hold them; the reader is told per frame whether it could.
use vstd::prelude::*;

use crate::bytes::{le_u16, le_u32, read_u16_le, read_u32_le};
use crate::font::{cstr_len, remapped, signed16};

verus! {

/// Longest name a layer sprite keeps.
pub const LAYER_SPRITE_NAME_MAX: usize = 0x4F;

/// The rectangle of one frame of a layer sprite.
#[derive(Debug, Clone, Copy, PartialEq, Eq, Structural)]
pub struct LayerSpriteFrame {
    pub start_x: i16,
    pub start_y: i16,
    pub end_x: i16,
    pub end_y: i16,
}

/// A layer sprite read from its stream: the palette colours of entries 1
/// and on (0 for black, which stays transparent), the metrics, the frame
/// rectangles, and each frame's pixels (palette indices, `width * height`
/// bytes; none for an empty frame).
#[derive(Debug, Clone)]
pub struct LayerSprite {
    pub name: Vec<u8>,
    pub header_flags: u16,
    pub palette_rgb: Vec<u32>,
    pub field_60: u32,
    pub flags: u16,
    pub cell_width: i16,
    pub cell_height: i16,
    pub frames: Vec<LayerSpriteFrame>,
    pub pixels: Vec<Vec<u8>>,
}

/// The name a sprite keeps: the C string `name`, cut to 79 bytes.
pub open spec fn kept_name(name: Seq<u8>) -> Seq<u8> {
    let n = cstr_len(name);
    name.take(if n < LAYER_SPRITE_NAME_MAX {
        n
    } else {
        LAYER_SPRITE_NAME_MAX as int
    })
}

/// The palette count.
pub open spec fn ls_palette_count(d: Seq<u8>) -> int {
    le_u16(d, 10) as int
}

/// Where the metrics start: after the palette triplets.
pub open spec fn ls_metrics_at(d: Seq<u8>) -> int {
    12 + 3 * ls_palette_count(d)
}

/// The frame count.
pub open spec fn ls_frame_count(d: Seq<u8>) -> int {
    le_u16(d, ls_metrics_at(d) + 10) as int
}

/// Where the frame rectangles start: after the metrics and the padding that
/// leaves a multiple of four bytes.
pub open spec fn ls_frames_at(d: Seq<u8>) -> int {
    let p = ls_metrics_at(d) + 12;
    p + (d.len() - p) % 4
}

/// The signed 16-bit value at `off`.
pub open spec fn le_i16(d: Seq<u8>, off: int) -> i16 {
    signed16(le_u16(d, off)) as i16
}

/// The rectangle of frame `j`.
pub open spec fn ls_frame(d: Seq<u8>, j: int) -> LayerSpriteFrame {
    let f = ls_frames_at(d) + 12 * j;
    LayerSpriteFrame {
        start_x: le_i16(d, f + 4),
        start_y: le_i16(d, f + 6),
        end_x: le_i16(d, f + 8),
        end_y: le_i16(d, f + 10),
    }
}

/// The number of pixel bytes of a frame.
pub open spec fn frame_size(f: LayerSpriteFrame) -> int {
    (f.end_x - f.start_x) * (f.end_y - f.start_y)
}

/// The pixel bytes read for frame `j`: its size when it has a surface
/// (`ok[j]`), else none.
pub open spec fn read_size(d: Seq<u8>, ok: Seq<bool>, j: int) -> int {
    if ok[j] {
        frame_size(ls_frame(d, j))
    } else {
        0
    }
}

/// Where the pixels of frame `j` start: after the rectangles and the pixels
/// read for the frames before it.
pub open spec fn ls_pixels_at(d: Seq<u8>, ok: Seq<bool>, j: int) -> int
    decreases j,
{
    if j <= 0 {
        ls_frames_at(d) + 12 * ls_frame_count(d)
    } else {
        ls_pixels_at(d, ok, j - 1) + read_size(d, ok, j - 1)
    }
}

/// The stream holds a whole sprite, given which frames have a surface
/// (`ok`): at most 256 palette entries, frames with non-negative sizes,
/// and every byte that is read.
pub open spec fn ls_fits(d: Seq<u8>, ok: Seq<bool>) -> bool {
    &&& 12 <= d.len()
    &&& ls_palette_count(d) <= 256
    &&& ls_metrics_at(d) + 12 <= d.len()
    &&& ls_frames_at(d) + 12 * ls_frame_count(d) <= d.len()
    &&& forall|j: int|
        0 <= j < ls_frame_count(d) ==> {
            let f = #[trigger] ls_frame(d, j);
            &&& f.start_x <= f.end_x
            &&& f.start_y <= f.end_y
        }
    &&& ok.len() >= ls_frame_count(d)
    &&& ls_pixels_at(d, ok, ls_frame_count(d)) <= d.len()
    &&& d.len() <= u32::MAX
}

/// The palette colour of triplet `i` (0 for black).
pub open spec fn ls_rgb(d: Seq<u8>, i: int) -> u32 {
    let o = 12 + 3 * i;
    (d[o] + d[o + 1] * 0x100 + d[o + 2] * 0x1_0000) as u32
}

proof fn lemma_pixels_grow(d: Seq<u8>, ok: Seq<bool>, j: int, k: int)
    requires
        0 <= j <= k <= ls_frame_count(d),
        forall|i: int|
            0 <= i < ls_frame_count(d) ==> {
                let f = #[trigger] ls_frame(d, i);
                &&& f.start_x <= f.end_x
                &&& f.start_y <= f.end_y
            },
    ensures
        ls_pixels_at(d, ok, j) <= ls_pixels_at(d, ok, k),
    decreases k - j,
{
    if j < k {
        lemma_pixels_grow(d, ok, j, k - 1);
        let f = ls_frame(d, k - 1);
        assert(frame_size(f) >= 0) by (nonlinear_arith)
            requires
                f.start_x <= f.end_x,
                f.start_y <= f.end_y,
        ;
    }
}

fn read_i16_le(d: &[u8], off: usize) -> (r: i16)
    requires
        off + 2 <= d@.len(),
    ensures
        r == le_i16(d@, off as int),
{
    let v = read_u16_le(d, off);
    assert(v < 0x8000 ==> (v as i16) as int == v as int) by (bit_vector);
    assert(v >= 0x8000 ==> (v as i16) as int == v as int - 0x10000) by (bit_vector);
    v as i16
}

/// The name kept for a sprite loaded as `name` (see `kept_name`).
pub fn sprite_name(name: &[u8]) -> (r: Vec<u8>)
    ensures
        r@ == kept_name(name@),
{
    let mut out: Vec<u8> = Vec::new();
    let mut i: usize = 0;
    while i < name.len() && name[i] != 0 && i < LAYER_SPRITE_NAME_MAX
        invariant
            i <= name@.len(),
            i <= LAYER_SPRITE_NAME_MAX,
            forall|j: int| 0 <= j < i ==> name@[j] != 0,
            out@ == name@.take(i as int),
        decreases name@.len() - i,
    {
        out.push(name[i]);
        proof {
            assert(out@ =~= name@.take(i + 1));
        }
        i = i + 1;
    }
    proof {
        if i < LAYER_SPRITE_NAME_MAX {
            crate::font::lemma_cstr_len(name@, i as int);
        } else {
            crate::font::lemma_cstr_len_ge(name@, i as int);
        }
    }
    out
}

/// Reads the layer sprite called `name` from its stream `d` (see the
/// module documentation and `LayerSprite`); `surfaces[j]` tells whether
/// frame `j` got a surface, so that its pixels are read.
pub fn load_sprite_by_name(name: &[u8], d: &[u8], surfaces: &[bool]) -> (r: LayerSprite)
    requires
        ls_fits(d@, surfaces@),
    ensures
        r.name@ == kept_name(name@),
        r.header_flags == le_u16(d@, 8),
        r.palette_rgb@.len() == ls_palette_count(d@),
        forall|i: int| 0 <= i < r.palette_rgb@.len() ==> #[trigger] r.palette_rgb@[i] == ls_rgb(d@, i),
        r.field_60 == le_u32(d@, ls_metrics_at(d@)),
        r.flags == le_u16(d@, ls_metrics_at(d@) + 4),
        r.cell_width == le_i16(d@, ls_metrics_at(d@) + 6),
        r.cell_height == le_i16(d@, ls_metrics_at(d@) + 8),
        r.frames@.len() == ls_frame_count(d@),
        forall|j: int| 0 <= j < ls_frame_count(d@) ==> #[trigger] r.frames@[j] == ls_frame(d@, j),
        r.pixels@.len() == ls_frame_count(d@),
        forall|j: int|
            0 <= j < ls_frame_count(d@) ==> (#[trigger] r.pixels@[j])@ == d@.subrange(
                ls_pixels_at(d@, surfaces@, j),
                ls_pixels_at(d@, surfaces@, j) + read_size(d@, surfaces@, j),
            ),
{
    let len: usize = d.len();
    let header_flags = read_u16_le(d, 8);
    let pc: usize = read_u16_le(d, 10) as usize;
    let mut palette_rgb: Vec<u32> = Vec::new();
    let mut i: usize = 0;
    while i < pc
        invariant
            len == d@.len(),
            pc == ls_palette_count(d@),
            ls_fits(d@, surfaces@),
            i <= pc,
            palette_rgb@.len() == i,
            forall|k: int| 0 <= k < i ==> #[trigger] palette_rgb@[k] == ls_rgb(d@, k),
        decreases pc - i,
    {
        let o: usize = 12 + 3 * i;
        let rgb: u32 = d[o] as u32 + (d[o + 1] as u32) * 0x100 + (d[o + 2] as u32) * 0x1_0000;
        palette_rgb.push(rgb);
        i = i + 1;
    }
    let q: usize = 12 + 3 * pc;
    let field_60 = read_u32_le(d, q);
    let flags = read_u16_le(d, q + 4);
    let cell_width = read_i16_le(d, q + 6);
    let cell_height = read_i16_le(d, q + 8);
    let fc: usize = read_u16_le(d, q + 10) as usize;
    let mut pos: usize = q + 12;
    while (len - pos) % 4 != 0
        invariant
            len == d@.len(),
            q + 12 <= pos <= len,
            pos - (q + 12) <= 3,
            (len - (q + 12)) % 4 == (len - pos) % 4 + (pos - (q + 12)),
        decreases len - pos,
    {
        pos = pos + 1;
    }
    assert(pos == ls_frames_at(d@));
    let mut frames: Vec<LayerSpriteFrame> = Vec::new();
    let mut j: usize = 0;
    while j < fc
        invariant
            len == d@.len(),
            ls_fits(d@, surfaces@),
            fc == ls_frame_count(d@),
            pos == ls_frames_at(d@),
            j <= fc,
            frames@.len() == j,
            forall|k: int| 0 <= k < j ==> #[trigger] frames@[k] == ls_frame(d@, k),
        decreases fc - j,
    {
        let f: usize = pos + 12 * j;
        frames.push(
            LayerSpriteFrame {
                start_x: read_i16_le(d, f + 4),
                start_y: read_i16_le(d, f + 6),
                end_x: read_i16_le(d, f + 8),
                end_y: read_i16_le(d, f + 10),
            },
        );
        j = j + 1;
    }
    let mut at: usize = pos + 12 * fc;
    let mut pixels: Vec<Vec<u8>> = Vec::new();
    let mut k: usize = 0;
    while k < fc
        invariant
            len == d@.len(),
            ls_fits(d@, surfaces@),
            fc == ls_frame_count(d@),
            frames@.len() == fc,
            forall|m: int| 0 <= m < fc ==> #[trigger] frames@[m] == ls_frame(d@, m),
            k <= fc,
            at == ls_pixels_at(d@, surfaces@, k as int),
            pixels@.len() == k,
            forall|m: int|
                0 <= m < k ==> (#[trigger] pixels@[m])@ == d@.subrange(
                    ls_pixels_at(d@, surfaces@, m),
                    ls_pixels_at(d@, surfaces@, m) + read_size(d@, surfaces@, m),
                ),
        decreases fc - k,
    {
        let fr = frames[k];
        proof {
            assert(fr == ls_frame(d@, k as int));
            lemma_pixels_grow(d@, surfaces@, k as int + 1, fc as int);
        }
        let w: usize = (fr.end_x as i32 - fr.start_x as i32) as usize;
        let h: usize = (fr.end_y as i32 - fr.start_y as i32) as usize;
        assert(w * h == frame_size(fr)) by (nonlinear_arith)
            requires
                w == fr.end_x - fr.start_x,
                h == fr.end_y - fr.start_y,
        ;
        let size: usize = if surfaces[k] {
            w * h
        } else {
            0
        };
        let mut px: Vec<u8> = Vec::new();
        let mut b: usize = 0;
        while b < size
            invariant
                len == d@.len(),
                at + size <= len,
                b <= size,
                px@ == d@.subrange(at as int, at + b),
            decreases size - b,
        {
            px.push(d[at + b]);
            proof {
                assert(px@ =~= d@.subrange(at as int, at + b + 1));
            }
            b = b + 1;
        }
        pixels.push(px);
        at = at + size;
        k = k + 1;
    }
    LayerSprite {
        name: sprite_name(name),
        header_flags,
        palette_rgb,
        field_60,
        flags,
        cell_width,
        cell_height,
        frames,
        pixels,
    }
}

/// Entry `k` of the colour table of a sprite whose palette colours are
/// `rgb` and whose display colours for them are `mapped`: entry 0 stays 0
/// (transparent), entry `i + 1` is `mapped[i]`, or 0 where colour `i` is
/// black, and the entries past the palette are 0.
pub open spec fn sprite_lut_entry(rgb: Seq<u32>, mapped: Seq<u8>, k: int) -> u8 {
    if 1 <= k <= rgb.len() && rgb[k - 1] != 0 {
        mapped[k - 1]
    } else {
        0
    }
}

/// The 256-entry colour table that turns the palette indices of a layer
/// sprite into display colours (see `sprite_lut_entry`); `mapped[i]` is
/// the display colour chosen for palette colour `palette_rgb[i]`.
pub fn sprite_palette_lut(palette_rgb: &Vec<u32>, mapped: &Vec<u8>) -> (lut: Vec<u8>)
    requires
        palette_rgb@.len() == mapped@.len(),
        palette_rgb@.len() <= 255,
    ensures
        lut@.len() == 256,
        forall|k: int| 0 <= k < 256 ==> #[trigger] lut@[k] == sprite_lut_entry(palette_rgb@, mapped@, k),
{
    let n: usize = palette_rgb.len();
    let mut lut: Vec<u8> = Vec::new();
    let mut k: usize = 0;
    while k < 256
        invariant
            n == palette_rgb@.len() == mapped@.len(),
            n <= 255,
            k <= 256,
            lut@.len() == k,
            forall|j: int| 0 <= j < k ==> #[trigger] lut@[j] == sprite_lut_entry(palette_rgb@, mapped@, j),
        decreases 256 - k,
    {
        let v: u8 = if 1 <= k && k <= n && palette_rgb[k - 1] != 0 {
            mapped[k - 1]
        } else {
            0
        };
        lut.push(v);
        k = k + 1;
    }
    lut
}

/// Recolours every frame of `sprite` through the 256-entry colour table
/// `lut`; everything else stays as it is.
pub fn remap_sprite_pixels(sprite: &mut LayerSprite, lut: &Vec<u8>)
    requires
        lut@.len() == 256,
    ensures
        final(sprite).name == old(sprite).name,
        final(sprite).header_flags == old(sprite).header_flags,
        final(sprite).palette_rgb == old(sprite).palette_rgb,
        final(sprite).field_60 == old(sprite).field_60,
        final(sprite).flags == old(sprite).flags,
        final(sprite).cell_width == old(sprite).cell_width,
        final(sprite).cell_height == old(sprite).cell_height,
        final(sprite).frames == old(sprite).frames,
        final(sprite).pixels@.len() == old(sprite).pixels@.len(),
        forall|j: int|
            0 <= j < old(sprite).pixels@.len() ==> (#[trigger] final(sprite).pixels@[j])@ == remapped(
                old(sprite).pixels@[j]@,
                lut@,
            ),
{
    let n: usize = sprite.pixels.len();
    let mut out: Vec<Vec<u8>> = Vec::new();
    let mut j: usize = 0;
    while j < n
        invariant
            n == sprite.pixels@.len(),
            lut@.len() == 256,
            j <= n,
            out@.len() == j,
            forall|i: int|
                0 <= i < j ==> (#[trigger] out@[i])@ == remapped(sprite.pixels@[i]@, lut@),
        decreases n - j,
    {
        let m: usize = sprite.pixels[j].len();
        let mut px: Vec<u8> = Vec::new();
        let mut b: usize = 0;
        while b < m
            invariant
                j < n == sprite.pixels@.len(),
                m == sprite.pixels@[j as int]@.len(),
                lut@.len() == 256,
                b <= m,
                px@.len() == b,
                forall|i: int|
                    0 <= i < b ==> #[trigger] px@[i] == lut@[sprite.pixels@[j as int]@[i] as int],
            decreases m - b,
        {
            let v: u8 = sprite.pixels[j][b];
            px.push(lut[v as usize]);
            b = b + 1;
        }
        assert(px@ =~= remapped(sprite.pixels@[j as int]@, lut@));
        out.push(px);
        j = j + 1;
    }
    sprite.pixels = out;
}

} // verus!
