//! Decisions of the display layer that do not touch surfaces: palette slot
//! allocation, sprite frame selection, and how a scaled sprite is drawn.
use vstd::prelude::*;

use crate::fixed::{wrap_i32, wrapping_to_i32, Fixed};

verus! {

/// Number of entries of the palette slot table: a guard entry, the 255
/// slots, and a sentinel.
pub const SLOT_TABLE_LEN: usize = 257;

/// A slot table entry read as a signed value is positive: the slot is free.
pub open spec fn slot_free(v: u32) -> bool {
    0 < v < 0x8000_0000
}

/// A slot table entry read as a signed value is negative: the end marker.
pub open spec fn slot_end(v: u32) -> bool {
    v >= 0x8000_0000
}

/// The `count` entries before `e` are all free.
pub open spec fn run_ends_at(t: Seq<u32>, count: int, e: int) -> bool {
    &&& 0 <= count <= e <= t.len()
    &&& forall|i: int| e - count <= i < e ==> slot_free(#[trigger] t[i])
}

/// No end marker lies before `e`.
pub open spec fn no_end_before(t: Seq<u32>, e: int) -> bool {
    forall|i: int| 0 <= i < e ==> !slot_end(#[trigger] t[i])
}

/// Claims `count` consecutive free slots: scanning from the start, the first
/// run of `count` free entries is zeroed (taken) and its start returned.
/// The scan fails with -1 when it meets an end marker or the end of the
/// table first; then nothing changes. A zero count takes nothing at 0.
pub fn palette_slot_alloc(table: &mut Vec<u32>, count: i32) -> (r: i32)
    requires
        old(table)@.len() == SLOT_TABLE_LEN,
    ensures
        final(table)@.len() == SLOT_TABLE_LEN,
        r >= 0 ==> {
            &&& run_ends_at(old(table)@, count as int, r + count)
            &&& forall|e: int| 0 <= e < r + count ==> !#[trigger] run_ends_at(old(table)@, count as int, e)
            &&& no_end_before(old(table)@, r + count)
            &&& forall|i: int|
                0 <= i < SLOT_TABLE_LEN ==> #[trigger] final(table)@[i] == (if r <= i < r + count {
                    0
                } else {
                    old(table)@[i]
                })
        },
        r < 0 ==> {
            &&& r == -1
            &&& final(table)@ == old(table)@
            &&& forall|e: int|
                0 <= e <= SLOT_TABLE_LEN && #[trigger] run_ends_at(old(table)@, count as int, e)
                    ==> !no_end_before(old(table)@, e)
        },
{
    if count < 0 {
        return -1;
    }
    let c: usize = count as usize;
    let ghost t = table@;
    let mut consecutive: usize = 0;
    let mut scan: usize = 0;
    while consecutive != c
        invariant
            table@ == t,
            t.len() == SLOT_TABLE_LEN,
            0 <= count,
            c == count,
            consecutive <= c,
            consecutive <= scan <= SLOT_TABLE_LEN,
            no_end_before(t, scan as int),
            forall|i: int| scan - consecutive <= i < scan ==> slot_free(#[trigger] t[i]),
            scan - consecutive == 0 || !slot_free(t[scan - consecutive - 1]),
            forall|e: int| 0 <= e < scan ==> !#[trigger] run_ends_at(t, count as int, e),
        decreases SLOT_TABLE_LEN - scan, c - consecutive,
    {
        if scan >= SLOT_TABLE_LEN {
            proof {
                assert forall|e: int|
                    0 <= e <= SLOT_TABLE_LEN && #[trigger] run_ends_at(t, count as int, e)
                        implies !no_end_before(t, e) by {
                    if e == SLOT_TABLE_LEN {
                        let k = scan - consecutive - 1;
                        if consecutive < c {
                            assert(e - count <= k);
                            assert(slot_free(t[k]));
                        }
                    }
                }
            }
            return -1;
        }
        let v: u32 = table[scan];
        if v >= 0x8000_0000 {
            proof {
                assert forall|e: int|
                    0 <= e <= SLOT_TABLE_LEN && #[trigger] run_ends_at(t, count as int, e)
                        implies !no_end_before(t, e) by {
                    if e > scan {
                        assert(slot_end(t[scan as int]));
                    } else if e == scan {
                        let k = scan - consecutive - 1;
                        if consecutive < c {
                            assert(e - count <= k);
                            assert(slot_free(t[k]));
                        }
                    }
                }
            }
            return -1;
        }
        proof {
            assert forall|e: int| 0 <= e < scan + 1 implies !#[trigger] run_ends_at(t, count as int, e) by {
                if e == scan && run_ends_at(t, count as int, e) {
                    let k = scan - consecutive - 1;
                    if k >= 0 {
                        assert(e - count <= k);
                        assert(slot_free(t[k]));
                    }
                }
            }
        }
        scan = scan + 1;
        if v == 0 {
            consecutive = 0;
        } else {
            consecutive = consecutive + 1;
        }
    }
    let start: usize = scan - c;
    let mut i: usize = start;
    while i < scan
        invariant
            start == scan - c,
            start <= i <= scan <= SLOT_TABLE_LEN,
            t.len() == SLOT_TABLE_LEN,
            table@.len() == SLOT_TABLE_LEN,
            forall|j: int|
                0 <= j < SLOT_TABLE_LEN ==> #[trigger] table@[j] == (if start <= j < i {
                    0
                } else {
                    t[j]
                }),
        decreases scan - i,
    {
        table.set(i, 0);
        i = i + 1;
    }
    start as i32
}

/// The animation fields of a sprite that select the frame to draw.
#[derive(Debug, Clone, Copy, PartialEq, Eq, Structural)]
pub struct SpriteAnim {
    /// Bit 0: take the animation value modulo 0x10000 instead of clamping
    /// it; bit 1: play forth and back.
    pub flags: u16,
    pub max_frames: u16,
    /// Bit 0: round the frame index to the nearest frame.
    pub frame_round_mode: u8,
    pub scale_x: u32,
    pub scale_y: u32,
    /// Non-zero: the sprite has one frame and is drawn scaled between
    /// `scale_x` and `scale_y` instead.
    pub is_scaled: u32,
}

/// `v` modulo 2^32.
pub open spec fn as_u32(v: int) -> u32 {
    (v % 0x1_0000_0000) as u32
}

/// The animation value after clamping to `0..=0xFFFF` (or taking it
/// modulo 0x10000 when bit 0 of `flags` is set), then, when bit 1 is set,
/// folding the doubled value back from the end (forth and back).
pub open spec fn anim_phase(flags: u16, a: u32) -> u32 {
    let a1: u32 = if flags & 1 != 0 {
        a & 0xFFFF
    } else if a >= 0x8000_0000 {
        0
    } else if a >= 0x10000 {
        0xFFFF
    } else {
        a
    };
    if flags & 2 != 0 {
        let t = (a1 & 0xFFFF) * 2;
        if t >= 0x10000 {
            (0x1FFFE - t) as u32
        } else {
            t as u32
        }
    } else {
        a1
    }
}

/// The frame index and the scale to draw sprite `s` at animation value
/// `a`, as `(frame, scale)`: a scaled sprite draws frame 0 at
/// `scale_x + (scale_y - scale_x) * phase / 0x10000`; another draws frame
/// `max_frames * phase / 0x10000` (rounded to the nearest when bit 0 of
/// `frame_round_mode` is set, with `max_frames` itself wrapping to 0) and
/// scale 0. Products and sums are 32-bit.
pub open spec fn frame_choice(s: SpriteAnim, a: u32) -> (u32, u32) {
    let p = anim_phase(s.flags, a) as int;
    if s.is_scaled != 0 {
        let sx = wrap_i32(s.scale_x as int) as int;
        let diff = wrap_i32(wrap_i32(s.scale_y as int) - sx) as int;
        (0u32, as_u32(wrap_i32(wrap_i32((diff * p) / 0x10000) + sx) as int))
    } else {
        let prod = wrap_i32(s.max_frames * p) as int;
        if s.frame_round_mode & 1 != 0 {
            let f = as_u32(wrap_i32(prod + 0x8000) as int / 0x10000);
            (if f == s.max_frames as u32 {
                0u32
            } else {
                f
            }, 0u32)
        } else {
            (as_u32(prod / 0x10000), 0u32)
        }
    }
}

fn i32_to_u32(v: i32) -> (r: u32)
    ensures
        r == as_u32(v as int),
{
    if v >= 0 {
        v as u32
    } else {
        (v as i64 + 0x1_0000_0000) as u32
    }
}

fn u32_bits_as_i32(v: u32) -> (r: i32)
    ensures
        r == wrap_i32(v as int),
{
    wrapping_to_i32(v as i64)
}

/// The frame index and scale of sprite `s` at animation value
/// `anim_value` (see `frame_choice`).
pub fn sprite_frame_for(s: &SpriteAnim, anim_value: u32) -> (r: (u32, u32))
    ensures
        r == frame_choice(*s, anim_value),
{
    let mut a: u32 = anim_value;
    if s.flags & 1 != 0 {
        a = a & 0xFFFF;
    } else if a >= 0x8000_0000 {
        a = 0;
    } else if a >= 0x10000 {
        a = 0xFFFF;
    }
    if s.flags & 2 != 0 {
        let a0 = a;
        assert(a0 & 0xFFFF <= 0xFFFF) by (bit_vector);
        let t: u32 = (a & 0xFFFF) * 2;
        a = if t >= 0x10000 {
            0x1FFFE - t
        } else {
            t
        };
    }
    assert(a == anim_phase(s.flags, anim_value));
    assert(a <= 0xFFFF) by {
        assert(anim_value & 0xFFFF <= 0xFFFF) by (bit_vector);
    }
    if s.is_scaled != 0 {
        let sx: i32 = u32_bits_as_i32(s.scale_x);
        let sy: i32 = u32_bits_as_i32(s.scale_y);
        let diff: i32 = wrapping_to_i32(sy as i64 - sx as i64);
        assert(-0x8000_0000 * 0x10000 <= diff * a <= 0x8000_0000 * 0x10000) by (nonlinear_arith)
            requires
                -0x8000_0000 <= diff < 0x8000_0000,
                0 <= a <= 0xFFFF,
        ;
        let prod: i64 = diff as i64 * a as i64;
        let q: i64 = prod / 0x10000;
        let hi: i32 = wrapping_to_i32(if prod >= 0 {
            q
        } else if prod % 0x10000 == 0 {
            q
        } else {
            q - 1
        });
        let interp: i32 = wrapping_to_i32(hi as i64 + sx as i64);
        return (0, i32_to_u32(interp));
    }
    let mf: i64 = s.max_frames as i64;
    assert(0 <= mf * a <= 0xFFFF * 0xFFFF) by (nonlinear_arith)
        requires
            0 <= mf <= 0xFFFF,
            0 <= a <= 0xFFFF,
    ;
    let prod: i32 = wrapping_to_i32(mf * a as i64);
    if s.frame_round_mode & 1 != 0 {
        let v: i32 = wrapping_to_i32(prod as i64 + 0x8000);
        let fl: i32 = if v >= 0 {
            v / 0x10000
        } else if v % 0x10000 == 0 {
            v / 0x10000
        } else {
            v / 0x10000 - 1
        };
        let f: u32 = i32_to_u32(fl);
        if f == s.max_frames as u32 {
            (0, 0)
        } else {
            (f, 0)
        }
    } else {
        let fl: i32 = if prod >= 0 {
            prod / 0x10000
        } else if prod % 0x10000 == 0 {
            prod / 0x10000
        } else {
            prod / 0x10000 - 1
        };
        (i32_to_u32(fl), 0)
    }
}

/// The signed subframe index in the top byte of a cached frame's bitmap
/// offset.
pub fn subframe_index(bitmap_offset: u32) -> (r: i32)
    ensures
        r == (if bitmap_offset >> 24 >= 0x80 {
            (bitmap_offset >> 24) - 0x100
        } else {
            (bitmap_offset >> 24) as int
        }),
{
    let hi: u32 = bitmap_offset >> 24;
    assert(hi < 0x100) by (bit_vector)
        requires
            hi == bitmap_offset >> 24,
    ;
    if hi >= 0x80 {
        hi as i32 - 0x100
    } else {
        hi as i32
    }
}

/// The colour table that a scaled sprite blit goes through.
#[derive(Debug, Clone, Copy, PartialEq, Eq, Structural)]
pub enum ColorTableChoice {
    NoTable,
    /// The display's additive colour table.
    Additive,
    /// The display's blend colour table.
    Blend,
}

/// How `draw_scaled_sprite` draws a sprite: a blit of the given rectangle,
/// a stippled (checkerboard) blit, or nothing more to do. `layer` and
/// `sprite` are the surfaces that the caller handed in.
#[derive(Debug, Clone, Copy, PartialEq, Eq, Structural)]
pub enum DrawScaledSpriteResult {
    Blit {
        layer: u32,
        dst_x: i32,
        dst_y: i32,
        width: i32,
        height: i32,
        sprite: u32,
        src_x: i32,
        src_y: i32,
        color_table: ColorTableChoice,
        blit_flags: u32,
    },
    Stippled {
        layer: u32,
        dst_x: i32,
        dst_y: i32,
        width: i32,
        height: i32,
        sprite: u32,
        src_x: i32,
        src_y: i32,
        stipple_mode: u32,
    },
    Handled,
}

/// Half of `v`, rounded toward zero.
pub open spec fn half_toward_zero(v: int) -> int {
    if v < 0 {
        -((-v) / 2)
    } else {
        v / 2
    }
}

/// Where a sprite rectangle of size `w` x `h` is drawn so that its centre
/// lands on the whole part of `(x, y)` under camera offset `(camera_x,
/// camera_y)`.
pub open spec fn centered_at(camera: int, raw: int, size: int) -> int {
    camera - half_toward_zero(size) + raw / 0x10000
}

/// The drawing of the `src_x..src_w` x `src_y..src_h` part of `sprite`
/// centred at `(x, y)` on `layer`. Flag bits 27 and 28 ask for a stippled
/// blit (bit 28 selects the other checkerboard); otherwise an empty
/// rectangle needs nothing, and a blit goes through the additive table
/// (bit 21) or the blend table (bit 26), and copies unless bit 20 is set
/// (blit flags 1: through the table; 0: plain copy).
pub open spec fn scaled_sprite_result(
    camera_x: int,
    camera_y: int,
    layer: u32,
    x: int,
    y: int,
    sprite: u32,
    src_x: i32,
    src_y: i32,
    src_w: i32,
    src_h: i32,
    flags: u32,
) -> DrawScaledSpriteResult {
    let width = src_w - src_x;
    let height = src_h - src_y;
    let dst_x = centered_at(camera_x, x, width);
    let dst_y = centered_at(camera_y, y, height);
    if flags & 0x0800_0000 != 0 || flags & 0x1000_0000 != 0 {
        DrawScaledSpriteResult::Stippled {
            layer,
            dst_x: dst_x as i32,
            dst_y: dst_y as i32,
            width: width as i32,
            height: height as i32,
            sprite,
            src_x,
            src_y,
            stipple_mode: if flags & 0x1000_0000 != 0 {
                1
            } else {
                0
            },
        }
    } else if width <= 0 || height <= 0 {
        DrawScaledSpriteResult::Handled
    } else {
        DrawScaledSpriteResult::Blit {
            layer,
            dst_x: dst_x as i32,
            dst_y: dst_y as i32,
            width: width as i32,
            height: height as i32,
            sprite,
            src_x,
            src_y,
            color_table: if flags & 0x20_0000 != 0 {
                ColorTableChoice::Additive
            } else if flags & 0x400_0000 != 0 {
                ColorTableChoice::Blend
            } else {
                ColorTableChoice::NoTable
            },
            blit_flags: if flags & 0x10_0000 != 0 {
                0
            } else {
                1
            },
        }
    }
}

/// How to draw the `src_x..src_w` x `src_y..src_h` part of `sprite` centred
/// at `(x, y)` (see `scaled_sprite_result`); the caller takes the render
/// lock before a `Blit`.
pub fn draw_scaled_sprite(
    camera_x: i32,
    camera_y: i32,
    layer: u32,
    x: Fixed,
    y: Fixed,
    sprite: u32,
    src_x: i32,
    src_y: i32,
    src_w: i32,
    src_h: i32,
    flags: u32,
) -> (r: DrawScaledSpriteResult)
    requires
        i32::MIN <= src_w - src_x <= i32::MAX,
        i32::MIN <= src_h - src_y <= i32::MAX,
        i32::MIN <= centered_at(camera_x as int, x.0 as int, src_w - src_x) <= i32::MAX,
        i32::MIN <= camera_x - half_toward_zero(src_w - src_x) <= i32::MAX,
        i32::MIN <= centered_at(camera_y as int, y.0 as int, src_h - src_y) <= i32::MAX,
        i32::MIN <= camera_y - half_toward_zero(src_h - src_y) <= i32::MAX,
    ensures
        r == scaled_sprite_result(
            camera_x as int,
            camera_y as int,
            layer,
            x.0 as int,
            y.0 as int,
            sprite,
            src_x,
            src_y,
            src_w,
            src_h,
            flags,
        ),
{
    let width: i32 = src_w - src_x;
    let height: i32 = src_h - src_y;
    let half_w: i32 = if width < 0 {
        (-((-(width as i64)) / 2)) as i32
    } else {
        width / 2
    };
    let half_h: i32 = if height < 0 {
        (-((-(height as i64)) / 2)) as i32
    } else {
        height / 2
    };
    let xr: i32 = x.0;
    let yr: i32 = y.0;
    let xs: i32 = xr >> 16u32;
    let ys: i32 = yr >> 16u32;
    assert(xs as int == xr as int / 0x10000) by (bit_vector)
        requires
            xs == xr >> 16u32,
    ;
    assert(ys as int == yr as int / 0x10000) by (bit_vector)
        requires
            ys == yr >> 16u32,
    ;
    let dst_x: i32 = camera_x - half_w + xs;
    let dst_y: i32 = camera_y - half_h + ys;
    let blend_mode: u32 = (!(flags >> 20u32)) & 1;
    assert(blend_mode == (if flags & 0x10_0000 != 0 { 0u32 } else { 1u32 })) by (bit_vector)
        requires
            blend_mode == (!(flags >> 20u32)) & 1,
    ;
    if (flags & 0x800_0000) != 0 || (flags & 0x1000_0000) != 0 {
        let stipple_mode: u32 = if (flags & 0x1000_0000) != 0 {
            1
        } else {
            0
        };
        return DrawScaledSpriteResult::Stippled {
            layer,
            dst_x,
            dst_y,
            width,
            height,
            sprite,
            src_x,
            src_y,
            stipple_mode,
        };
    }
    let color_table = if (flags & 0x20_0000) != 0 {
        ColorTableChoice::Additive
    } else if (flags & 0x400_0000) != 0 {
        ColorTableChoice::Blend
    } else {
        ColorTableChoice::NoTable
    };
    if width <= 0 || height <= 0 {
        return DrawScaledSpriteResult::Handled;
    }
    DrawScaledSpriteResult::Blit {
        layer,
        dst_x,
        dst_y,
        width,
        height,
        sprite,
        src_x,
        src_y,
        color_table,
        blit_flags: blend_mode,
    }
}

/// What the info query reports of a loaded sprite: a packed data word,
/// the looping flag, and the animation's frame count.
#[derive(Clone, Copy, PartialEq, Eq, Structural, Debug)]
pub struct SpriteInfo {
    pub data: u32,
    pub flags: u32,
    pub width: u32,
}

/// The header fields of a sprite that the info query reads.
#[derive(Clone, Copy, PartialEq, Eq, Structural, Debug)]
pub struct SpriteMeta {
    /// Whether the sprite's frame table is loaded.
    pub has_frames: bool,
    pub unknown_08: u16,
    pub fps: u16,
    /// Bit 0: loops; bit 1: plays forth and back.
    pub flags: u16,
    pub max_frames: u16,
}

/// The frame count an animation shows: a forth-and-back animation passes
/// every frame but the last twice.
pub open spec fn shown_frames(count: int, back_and_forth: bool) -> int {
    if back_and_forth {
        2 * count - 1
    } else {
        count
    }
}

/// Info of a sprite: its unknown word and frame rate packed into one word
/// (rate in the high half), the looping flag, and the shown frame count;
/// nothing when the sprite has no frames loaded.
pub open spec fn sprite_info_of(s: SpriteMeta) -> Option<SpriteInfo> {
    if s.has_frames {
        Some(
            SpriteInfo {
                data: (s.unknown_08 + s.fps * 0x10000) as u32,
                flags: (s.flags % 2) as u32,
                width: shown_frames(s.max_frames as int, s.flags & 2 != 0) as u32,
            },
        )
    } else {
        None
    }
}

/// Whether the info query can be made of a sprite: a loaded
/// forth-and-back sprite has at least one frame.
pub open spec fn sprite_info_ok(s: SpriteMeta) -> bool {
    s.has_frames && s.flags & 2 != 0 ==> s.max_frames > 0
}

/// The info query of a sprite.
pub fn sprite_info_from_sprite(s: &SpriteMeta) -> (r: Option<SpriteInfo>)
    requires
        sprite_info_ok(*s),
    ensures
        r == sprite_info_of(*s),
{
    if !s.has_frames {
        return None;
    }
    let data = s.unknown_08 as u32 + s.fps as u32 * 0x10000;
    let width = if s.flags & 2 != 0 {
        s.max_frames as u32 * 2 - 1
    } else {
        s.max_frames as u32
    };
    Some(SpriteInfo { data, flags: (s.flags % 2) as u32, width })
}

/// One frame entry of a sprite bank.
#[derive(Clone, Copy, PartialEq, Eq, Structural, Debug)]
pub struct SpriteBankFrame {
    /// Bit 0: loops; bit 1: plays forth and back.
    pub flags: u16,
    pub width: u16,
    pub height: u16,
    pub base_frame_idx: u16,
    /// Frame count of the animation; bit 15 marks a single still frame.
    pub scale_or_count: u16,
    pub data_value: u16,
}

/// A bank of sprites sharing one file: ids from `base_id` on map through
/// `index_table` to frame entries.
#[derive(Clone, Debug)]
pub struct SpriteBank {
    pub base_id: i32,
    pub index_table: Vec<i32>,
    /// Whether the frame table is loaded.
    pub has_frames: bool,
    pub frames: Vec<SpriteBankFrame>,
}

/// The entry of bank sprite `id`, if its index names a frame.
pub open spec fn bank_entry(b: SpriteBank, id: int) -> Option<SpriteBankFrame> {
    let e = b.index_table@[id - b.base_id];
    if 0 <= e < b.frames.len() {
        Some(b.frames@[e as int])
    } else {
        None
    }
}

/// Info of bank sprite `id`: the entry's data value shifted up a byte, its
/// looping flag, and its shown frame count (1 for a still frame); nothing
/// when the frame table is not loaded or the id's index names no entry.
pub open spec fn bank_info_of(b: SpriteBank, id: int) -> Option<SpriteInfo> {
    if !b.has_frames {
        None
    } else {
        match bank_entry(b, id) {
            Some(f) => Some(
                SpriteInfo {
                    data: (f.data_value * 0x100) as u32,
                    flags: (f.flags % 2) as u32,
                    width: (if f.scale_or_count & 0x8000 != 0 {
                        1
                    } else {
                        shown_frames(f.scale_or_count as int, f.flags & 2 != 0)
                    }) as u32,
                },
            ),
            None => None,
        }
    }
}

/// Whether the info query can be made of bank sprite `id`: a loaded bank
/// has an index for it, and a forth-and-back entry has a frame.
pub open spec fn bank_info_ok(b: SpriteBank, id: int) -> bool {
    &&& b.index_table.len() <= i32::MAX
    &&& b.has_frames ==> 0 <= id - b.base_id < b.index_table.len()
    &&& b.has_frames ==> (bank_entry(b, id) matches Some(f) ==> (f.scale_or_count & 0x8000 == 0 && f.flags
        & 2 != 0 ==> f.scale_or_count > 0))
}

/// The info query of a bank sprite.
pub fn sprite_info_from_bank(bank: &SpriteBank, id: i32) -> (r: Option<SpriteInfo>)
    requires
        bank_info_ok(*bank, id as int),
    ensures
        r == bank_info_of(*bank, id as int),
{
    if !bank.has_frames {
        return None;
    }
    let e = bank.index_table[(id - bank.base_id) as usize];
    if e < 0 || e as usize >= bank.frames.len() {
        return None;
    }
    let f = bank.frames[e as usize];
    let width = if f.scale_or_count & 0x8000 != 0 {
        1
    } else if f.flags & 2 != 0 {
        f.scale_or_count as u32 * 2 - 1
    } else {
        f.scale_or_count as u32
    };
    Some(SpriteInfo { data: f.data_value as u32 * 0x100, flags: (f.flags % 2) as u32, width })
}

/// The info query for sprite id `id` (valid ids are `1..=0x3FF`): a loaded
/// sprite answers first, then a bank holding the id; nothing for an
/// invalid id or when neither is there.
pub fn get_sprite_info(id: i32, sprite: Option<&SpriteMeta>, bank: Option<&SpriteBank>) -> (r: Option<
    SpriteInfo,
>)
    requires
        1 <= id <= 0x3ff ==> (sprite matches Some(s) ==> sprite_info_ok(*s)),
        1 <= id <= 0x3ff && sprite is None ==> (bank matches Some(b) ==> bank_info_ok(*b, id as int)),
    ensures
        r == (if !(1 <= id <= 0x3ff) {
            None
        } else {
            match sprite {
                Some(s) => sprite_info_of(*s),
                None => match bank {
                    Some(b) => bank_info_of(*b, id as int),
                    None => None,
                },
            }
        }),
{
    if id < 1 || id > 0x3ff {
        return None;
    }
    match sprite {
        Some(s) => sprite_info_from_sprite(s),
        None => match bank {
            Some(b) => sprite_info_from_bank(b, id),
            None => None,
        },
    }
}

/// Whether sprite id `id` (valid ids are `1..=0x3FF`) is taken by a
/// sprite, a bank, or a layer sprite; each slice tells which ids are taken
/// in that table.
pub fn is_sprite_loaded(id: i32, sprites: &[bool], banks: &[bool], layer_sprites: &[bool]) -> (r: bool)
    requires
        sprites.len() >= 0x400,
        banks.len() >= 0x400,
        layer_sprites.len() >= 0x400,
    ensures
        r == (1 <= id <= 0x3ff && (sprites[id as int] || banks[id as int] || layer_sprites[id as int])),
{
    if id < 1 || id > 0x3ff {
        return false;
    }
    let i = id as usize;
    sprites[i] || banks[i] || layer_sprites[i]
}

/// The rectangle and pixel location of one sprite frame.
#[derive(Clone, Copy, PartialEq, Eq, Structural, Debug)]
pub struct SpriteFrameBox {
    pub start_x: i16,
    pub start_y: i16,
    pub end_x: i16,
    pub end_y: i16,
    /// Offset of the pixels in the sprite's bitmap data; for a cached
    /// sprite, the top byte is a signed subframe index and the low 24 bits
    /// the offset inside the decoded subframe.
    pub bitmap_offset: u32,
}

/// What the blitter needs of a sprite: its animation fields, its size,
/// whether its frames are cached compressed (header bit 0x4000), and its
/// frame rectangles.
#[derive(Clone, Debug)]
pub struct SpriteForBlit {
    pub anim: SpriteAnim,
    pub width: u16,
    pub height: u16,
    pub header_flags: u16,
    pub frames: Vec<SpriteFrameBox>,
}

/// Where a frame's pixels are.
#[derive(Clone, Copy, PartialEq, Eq, Structural, Debug)]
pub enum FramePixels {
    /// At this offset in the sprite's bitmap data.
    Flat(u32),
    /// In decoded subframe `subframe` (decoding it first if it is not in
    /// the frame cache), at `offset`.
    Cached { subframe: i32, offset: u32 },
}

/// The frame to blit: its index and scale (see `frame_choice`), the
/// frame's rectangle, the sprite's size, the frame's size and where its
/// pixels are.
#[derive(Clone, Copy, PartialEq, Eq, Structural, Debug)]
pub struct FrameForBlit {
    pub frame_index: u32,
    pub anim_frac: u32,
    pub left: i32,
    pub top: i32,
    pub right: i32,
    pub bottom: i32,
    pub width: i32,
    pub height: i32,
    pub frame_width: i32,
    pub frame_height: i32,
    pub pixels: FramePixels,
}

/// The frame to blit of sprite `s` at animation value `anim_value`.
pub open spec fn frame_for_blit(s: SpriteForBlit, anim_value: u32) -> FrameForBlit {
    let (idx, frac) = frame_choice(s.anim, anim_value);
    let f = s.frames@[idx as int];
    FrameForBlit {
        frame_index: idx,
        anim_frac: frac,
        left: f.start_x as i32,
        top: f.start_y as i32,
        right: f.end_x as i32,
        bottom: f.end_y as i32,
        width: s.width as i32,
        height: s.height as i32,
        frame_width: (f.end_x - f.start_x) as i32,
        frame_height: (f.end_y - f.start_y) as i32,
        pixels: if s.header_flags & 0x4000 == 0 {
            FramePixels::Flat(f.bitmap_offset)
        } else {
            FramePixels::Cached {
                subframe: (if f.bitmap_offset >> 24 >= 0x80 {
                    (f.bitmap_offset >> 24) - 0x100
                } else {
                    (f.bitmap_offset >> 24) as int
                }) as i32,
                offset: (f.bitmap_offset % 0x100_0000) as u32,
            }
        },
    }
}

/// The frame to blit of sprite id `id` (valid ids are `1..=0x3FE` here) at
/// animation value `anim_value`: see `frame_for_blit`; nothing for an
/// invalid id or an empty slot. Ids held by a bank are never asked for.
pub fn get_sprite_frame_for_blit(id: u32, sprite: Option<&SpriteForBlit>, in_bank: bool, anim_value: u32) -> (r:
    Option<FrameForBlit>)
    requires
        1 <= id <= 0x3fe && sprite is None ==> !in_bank,
        1 <= id <= 0x3fe ==> (sprite matches Some(s) ==> frame_choice(s.anim, anim_value).0 < s.frames.len()),
    ensures
        r == (if 1 <= id <= 0x3fe {
            match sprite {
                Some(s) => Some(frame_for_blit(*s, anim_value)),
                None => None,
            }
        } else {
            None
        }),
{
    if id < 1 || id > 0x3fe {
        return None;
    }
    match sprite {
        Some(s) => {
            let (idx, frac) = sprite_frame_for(&s.anim, anim_value);
            let f = s.frames[idx as usize];
            let pixels = if s.header_flags & 0x4000 == 0 {
                FramePixels::Flat(f.bitmap_offset)
            } else {
                FramePixels::Cached { subframe: subframe_index(f.bitmap_offset), offset: f.bitmap_offset & 0xFF_FFFF }
            };
            proof {
                let b = f.bitmap_offset;
                assert(b & 0xFF_FFFF == b % 0x100_0000) by (bit_vector);
            }
            Some(
                FrameForBlit {
                    frame_index: idx,
                    anim_frac: frac,
                    left: f.start_x as i32,
                    top: f.start_y as i32,
                    right: f.end_x as i32,
                    bottom: f.end_y as i32,
                    width: s.width as i32,
                    height: s.height as i32,
                    frame_width: f.end_x as i32 - f.start_x as i32,
                    frame_height: f.end_y as i32 - f.start_y as i32,
                    pixels,
                },
            )
        },
        None => None,
    }
}

} // verus!
