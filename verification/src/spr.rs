//! Parser for the game's `.spr` paletted sprite format.
use vstd::prelude::*;

use crate::bytes::{le_u16, le_u32, read_u16_le, read_u32_le};

verus! {

/// Per-frame metadata of a sprite (12 bytes on disk): bitmap offset and
/// bounding box.
#[derive(Clone, Copy, PartialEq, Eq, Structural, Debug)]
pub struct SpriteFrame {
    pub bitmap_offset: u32,
    pub start_x: u16,
    pub start_y: u16,
    pub end_x: u16,
    pub end_y: u16,
}

/// Errors from `.spr` parsing.
#[derive(Clone, Copy, PartialEq, Eq, Debug)]
pub enum SprError {
    /// The data is too short to hold a field that must be present.
    TooShort { expected: usize, actual: usize },
    /// The internal structure is inconsistent.
    InvalidData(&'static str),
}

/// Scalar header fields and byte offsets of the regions of a `.spr` file.
#[derive(Clone, Copy, PartialEq, Eq, Structural, Debug)]
pub struct SprHeader {
    pub data_size: u32,
    pub header_flags: u16,
    pub palette_count: u16,
    pub unknown_08: u16,
    pub fps: u16,
    pub flags: u16,
    pub width: u16,
    pub height: u16,
    pub frame_count: u16,
    pub max_frames: u16,
    pub scale_x: u32,
    pub scale_y: u32,
    pub is_scaled: bool,
    pub secondary_frame_count: u16,
    pub palette_offset: usize,
    pub secondary_frame_offset: usize,
    pub frame_meta_offset: usize,
    pub bitmap_offset: usize,
    pub bitmap_size: usize,
}

/// `off` rounded up to a multiple of four.
pub open spec fn spec_align4(off: int) -> int {
    off + 3 - (off + 3) % 4
}

/// Round `offset` up to the next multiple of four.
pub fn align4(offset: usize) -> (r: usize)
    requires
        offset + 3 <= usize::MAX,
    ensures
        r == spec_align4(offset as int),
        r % 4 == 0,
        offset <= r < offset + 4,
{
    offset + 3 - (offset + 3) % 4
}

/// Offset just past the RGB palette.
pub open spec fn spr_palette_end(d: Seq<u8>) -> int {
    12 + le_u16(d, 10) as int * 3
}

/// Whether the secondary frame table is present (header flag `0x4000`).
pub open spec fn spr_has_secondary(d: Seq<u8>) -> bool {
    (le_u16(d, 8) as int / 0x4000) % 2 == 1
}

/// Number of secondary frames (0 when the table is absent).
pub open spec fn spr_secondary_count(d: Seq<u8>) -> u16 {
    if spr_has_secondary(d) {
        le_u16(d, spr_palette_end(d))
    } else {
        0
    }
}

/// Offset of the secondary frame table (0 when absent).
pub open spec fn spr_secondary_offset(d: Seq<u8>) -> int {
    if spr_has_secondary(d) {
        spec_align4(spr_palette_end(d) + 2)
    } else {
        0
    }
}

/// Offset of the 12-byte main frame header.
pub open spec fn spr_main_offset(d: Seq<u8>) -> int {
    if spr_has_secondary(d) {
        spr_secondary_offset(d) + spr_secondary_count(d) as int * 12
    } else {
        spr_palette_end(d)
    }
}

/// The raw frame-count word; its top bit marks a scaled sprite.
pub open spec fn spr_frame_count_raw(d: Seq<u8>) -> u16 {
    le_u16(d, spr_main_offset(d) + 10)
}

/// Number of frames after scale processing (1 for a scaled sprite).
pub open spec fn spr_frame_count(d: Seq<u8>) -> u16 {
    if spr_frame_count_raw(d) >= 0x8000 {
        1
    } else {
        spr_frame_count_raw(d)
    }
}

/// Offset of the main frame metadata array.
pub open spec fn spr_frame_meta_offset(d: Seq<u8>) -> int {
    spec_align4(spr_main_offset(d) + 12)
}

/// Offset of the bitmap pixel data.
pub open spec fn spr_bitmap_offset(d: Seq<u8>) -> int {
    spr_frame_meta_offset(d) + spr_frame_count(d) as int * 12
}

/// The outcome of parsing a `.spr` header: the first region that does not
/// fit gives `TooShort`, otherwise every field is read from its offset.
pub open spec fn spec_spr_header(d: Seq<u8>) -> Result<SprHeader, SprError> {
    let len = d.len() as usize;
    if d.len() < 12 {
        Err(SprError::TooShort { expected: 12, actual: len })
    } else if d.len() < spr_palette_end(d) {
        Err(SprError::TooShort { expected: spr_palette_end(d) as usize, actual: len })
    } else if spr_has_secondary(d) && d.len() < spr_palette_end(d) + 2 {
        Err(SprError::TooShort { expected: (spr_palette_end(d) + 2) as usize, actual: len })
    } else if d.len() < spr_main_offset(d) + 12 {
        Err(SprError::TooShort { expected: (spr_main_offset(d) + 12) as usize, actual: len })
    } else {
        let m = spr_main_offset(d);
        let raw = spr_frame_count_raw(d);
        let scaled = raw >= 0x8000;
        Ok(
            SprHeader {
                data_size: le_u32(d, 4),
                header_flags: le_u16(d, 8),
                palette_count: le_u16(d, 10),
                unknown_08: le_u16(d, m),
                fps: le_u16(d, m + 2),
                flags: le_u16(d, m + 4),
                width: le_u16(d, m + 6),
                height: le_u16(d, m + 8),
                frame_count: spr_frame_count(d),
                max_frames: spr_frame_count(d),
                scale_x: if scaled {
                    ((raw as int / 0x100 % 0x80) * 0x800) as u32
                } else {
                    0
                },
                scale_y: if scaled {
                    ((raw as int % 0x80) * 0x800) as u32
                } else {
                    0
                },
                is_scaled: scaled,
                secondary_frame_count: spr_secondary_count(d),
                palette_offset: 12,
                secondary_frame_offset: spr_secondary_offset(d) as usize,
                frame_meta_offset: spr_frame_meta_offset(d) as usize,
                bitmap_offset: spr_bitmap_offset(d) as usize,
                bitmap_size: if d.len() > spr_bitmap_offset(d) {
                    (d.len() - spr_bitmap_offset(d)) as usize
                } else {
                    0
                },
            },
        )
    }
}

/// Where a parsed `.spr` header's main-frame words come from: the main
/// frame header follows the 12-byte file header and the palette of
/// `palette_count` RGB triplets (bytes 10-11), and when header flag
/// `0x4000` (bytes 8-9) is set, also the 2-byte secondary count, padding
/// to a multiple of four and that many 12-byte secondary frames. Its
/// little-endian words are, in order, `unknown_08`, `fps`, `flags`,
/// `width` and `height`.
pub proof fn lemma_spr_main_header_words(d: Seq<u8>)
    ensures
        spec_spr_header(d) matches Ok(h) ==> {
            let pc = d[10] as int + d[11] as int * 0x100;
            let hf = d[8] as int + d[9] as int * 0x100;
            let pe = 12 + 3 * pc;
            let m = if (hf / 0x4000) % 2 == 1 {
                (pe + 2 + 3) / 4 * 4 + 12 * (d[pe] as int + d[pe + 1] as int * 0x100)
            } else {
                pe
            };
            &&& m + 12 <= d.len()
            &&& h.unknown_08 as int == d[m] as int + d[m + 1] as int * 0x100
            &&& h.fps as int == d[m + 2] as int + d[m + 3] as int * 0x100
            &&& h.flags as int == d[m + 4] as int + d[m + 5] as int * 0x100
            &&& h.width as int == d[m + 6] as int + d[m + 7] as int * 0x100
            &&& h.height as int == d[m + 8] as int + d[m + 9] as int * 0x100
        },
{
    if d.len() >= 12 {
        let pe = spr_palette_end(d);
        vstd::arithmetic::div_mod::lemma_fundamental_div_mod(pe + 2 + 3, 4);
        assert(spec_align4(pe + 2) == (pe + 2 + 3) / 4 * 4);
    }
}

/// The rest of a parsed `.spr` header: the file header's words at 4, 8
/// and 10; the frame-count word after the five main-frame words, whose top
/// bit marks a scaled sprite of one frame with scale factors from its two
/// low bytes (7 bits each, times 0x800); the secondary table (count and
/// aligned offset) when flag `0x4000` is set; the frame table at the next
/// multiple of four after the main frame header, 12 bytes per frame, and
/// the bitmap after it up to the end of the data. Parsing fails exactly
/// when the data ends before the header, the palette, the secondary count
/// or the main frame header, reporting the data's length.
pub proof fn lemma_spr_header_layout(d: Seq<u8>)
    ensures
        ({
            let pc = d[10] as int + d[11] as int * 0x100;
            let hf = d[8] as int + d[9] as int * 0x100;
            let pe = 12 + 3 * pc;
            let sec = (hf / 0x4000) % 2 == 1;
            let sc = d[pe] as int + d[pe + 1] as int * 0x100;
            let m = if sec {
                (pe + 2 + 3) / 4 * 4 + 12 * sc
            } else {
                pe
            };
            let raw = d[m + 10] as int + d[m + 11] as int * 0x100;
            let frames = if raw >= 0x8000 {
                1
            } else {
                raw
            };
            let meta = (m + 12 + 3) / 4 * 4;
            &&& spec_spr_header(d) is Err <==> (d.len() < 12 || d.len() < pe || (sec && d.len() < pe
                + 2) || d.len() < m + 12)
            &&& spec_spr_header(d) matches Err(SprError::TooShort { actual, .. }) ==> actual == d.len() as usize
            &&& spec_spr_header(d) matches Ok(h) ==> {
                &&& h.data_size as int == d[4] as int + d[5] as int * 0x100 + d[6] as int * 0x1_0000
                    + d[7] as int * 0x100_0000
                &&& h.header_flags as int == hf
                &&& h.palette_count as int == pc
                &&& h.palette_offset == 12
                &&& h.secondary_frame_count as int == (if sec {
                    sc
                } else {
                    0
                })
                &&& h.secondary_frame_offset == (if sec {
                    (pe + 2 + 3) / 4 * 4
                } else {
                    0
                }) as usize
                &&& h.is_scaled == (raw >= 0x8000)
                &&& h.frame_count as int == frames
                &&& h.max_frames as int == frames
                &&& h.scale_x as int == (if raw >= 0x8000 {
                    (raw / 0x100 % 0x80) * 0x800
                } else {
                    0
                })
                &&& h.scale_y as int == (if raw >= 0x8000 {
                    (raw % 0x80) * 0x800
                } else {
                    0
                })
                &&& h.frame_meta_offset == meta as usize
                &&& h.bitmap_offset == (meta + 12 * frames) as usize
                &&& h.bitmap_size == (if d.len() > meta + 12 * frames {
                    d.len() - (meta + 12 * frames)
                } else {
                    0
                }) as usize
            }
        }),
{
    if d.len() >= 12 {
        let pe = spr_palette_end(d);
        vstd::arithmetic::div_mod::lemma_fundamental_div_mod(pe + 2 + 3, 4);
        assert(spec_align4(pe + 2) == (pe + 2 + 3) / 4 * 4);
        let m = spr_main_offset(d);
        vstd::arithmetic::div_mod::lemma_fundamental_div_mod(m + 12 + 3, 4);
        assert(spec_align4(m + 12) == (m + 12 + 3) / 4 * 4);
        if spec_spr_header(d) is Ok {
            let h = spec_spr_header(d)->Ok_0;
            assert(h.data_size as int == d[4] as int + d[5] as int * 0x100 + d[6] as int * 0x1_0000
                + d[7] as int * 0x100_0000);
        }
    }
}

/// Parse a `.spr` header and compute the offsets of its data regions.
pub fn parse_spr_header(data: &[u8]) -> (r: Result<SprHeader, SprError>)
    ensures
        r == spec_spr_header(data@),
{
    let len = data.len();
    if len < 12 {
        return Err(SprError::TooShort { expected: 12, actual: len });
    }
    let data_size = read_u32_le(data, 4);
    let header_flags = read_u16_le(data, 8);
    let palette_count = read_u16_le(data, 10);
    let palette_offset: usize = 12;
    let palette_end: usize = palette_offset + palette_count as usize * 3;
    if len < palette_end {
        return Err(SprError::TooShort { expected: palette_end, actual: len });
    }
    let mut cursor: usize = palette_end;
    let mut secondary_frame_count: u16 = 0;
    let mut secondary_frame_offset: usize = 0;
    if (header_flags / 0x4000) % 2 == 1 {
        if len < cursor + 2 {
            return Err(SprError::TooShort { expected: cursor + 2, actual: len });
        }
        secondary_frame_count = read_u16_le(data, cursor);
        cursor = align4(cursor + 2);
        secondary_frame_offset = cursor;
        cursor = cursor + secondary_frame_count as usize * 12;
    }
    if len < cursor + 12 {
        return Err(SprError::TooShort { expected: cursor + 12, actual: len });
    }
    let unknown_08 = read_u16_le(data, cursor);
    let fps = read_u16_le(data, cursor + 2);
    let flags = read_u16_le(data, cursor + 4);
    let width = read_u16_le(data, cursor + 6);
    let height = read_u16_le(data, cursor + 8);
    let frame_count_raw = read_u16_le(data, cursor + 10);
    cursor = cursor + 12;
    let frame_count: u16;
    let scale_x: u32;
    let scale_y: u32;
    let is_scaled: bool;
    if frame_count_raw >= 0x8000 {
        frame_count = 1;
        scale_x = ((frame_count_raw / 0x100 % 0x80) as u32) * 0x800;
        scale_y = ((frame_count_raw % 0x80) as u32) * 0x800;
        is_scaled = true;
    } else {
        frame_count = frame_count_raw;
        scale_x = 0;
        scale_y = 0;
        is_scaled = false;
    }
    let frame_meta_offset = align4(cursor);
    let bitmap_offset = frame_meta_offset + frame_count as usize * 12;
    let bitmap_size = if len > bitmap_offset {
        len - bitmap_offset
    } else {
        0
    };
    Ok(
        SprHeader {
            data_size,
            header_flags,
            palette_count,
            unknown_08,
            fps,
            flags,
            width,
            height,
            frame_count,
            max_frames: frame_count,
            scale_x,
            scale_y,
            is_scaled,
            secondary_frame_count,
            palette_offset,
            secondary_frame_offset,
            frame_meta_offset,
            bitmap_offset,
            bitmap_size,
        },
    )
}

/// The frame metadata stored in the 12 bytes at `off`.
pub open spec fn spec_sprite_frame(d: Seq<u8>, off: int) -> SpriteFrame {
    SpriteFrame {
        bitmap_offset: le_u32(d, off),
        start_x: le_u16(d, off + 4),
        start_y: le_u16(d, off + 6),
        end_x: le_u16(d, off + 8),
        end_y: le_u16(d, off + 10),
    }
}

/// A frame record is five little-endian words in order: the 32-bit bitmap
/// offset, then the 16-bit start x, start y, end x and end y.
pub proof fn lemma_sprite_frame_words(d: Seq<u8>, off: int)
    ensures
        spec_sprite_frame(d, off).bitmap_offset as int == d[off] as int + d[off + 1] as int * 0x100
            + d[off + 2] as int * 0x1_0000 + d[off + 3] as int * 0x100_0000,
        spec_sprite_frame(d, off).start_x as int == d[off + 4] as int + d[off + 5] as int * 0x100,
        spec_sprite_frame(d, off).start_y as int == d[off + 6] as int + d[off + 7] as int * 0x100,
        spec_sprite_frame(d, off).end_x as int == d[off + 8] as int + d[off + 9] as int * 0x100,
        spec_sprite_frame(d, off).end_y as int == d[off + 10] as int + d[off + 11] as int * 0x100,
{
}

/// Read a frame record from the 12 bytes at `off`.
pub fn read_sprite_frame(data: &[u8], off: usize) -> (r: SpriteFrame)
    requires
        off + 12 <= data.len(),
    ensures
        r == spec_sprite_frame(data@, off as int),
{
    SpriteFrame {
        bitmap_offset: read_u32_le(data, off),
        start_x: read_u16_le(data, off + 4),
        start_y: read_u16_le(data, off + 6),
        end_x: read_u16_le(data, off + 8),
        end_y: read_u16_le(data, off + 10),
    }
}

/// A fully parsed `.spr` sprite with owned data: raw RGB palette, frame
/// metadata and raw bitmap pixel indices.
#[derive(Clone, Debug)]
pub struct ParsedSprite {
    pub unknown_08: u16,
    pub fps: u16,
    pub flags: u16,
    pub header_flags: u16,
    pub width: u16,
    pub height: u16,
    pub frame_count: u16,
    pub max_frames: u16,
    pub scale_x: u32,
    pub scale_y: u32,
    pub is_scaled: bool,
    pub palette: Vec<[u8; 3]>,
    pub frames: Vec<SpriteFrame>,
    pub secondary_frames: Vec<SpriteFrame>,
    pub bitmap: Vec<u8>,
    pub data_size: u32,
}

/// Whether the main frame table of a sprite with a readable header lies
/// within the data (the condition under which the sprite can be extracted).
pub open spec fn spr_frames_fit(d: Seq<u8>) -> bool {
    spec_spr_header(d) is Ok ==> spr_bitmap_offset(d) <= d.len()
}

impl ParsedSprite {
    /// Parse a whole `.spr` file into owned data.
    pub fn parse(data: &[u8]) -> (r: Result<ParsedSprite, SprError>)
        requires
            spr_frames_fit(data@),
        ensures
            spec_spr_header(data@) is Err ==> r == Err::<ParsedSprite, SprError>(
                spec_spr_header(data@)->Err_0,
            ),
            spec_spr_header(data@) is Ok <==> r is Ok,
            r matches Ok(p) ==> {
                let h = spec_spr_header(data@)->Ok_0;
                &&& p.unknown_08 == h.unknown_08 && p.fps == h.fps && p.flags == h.flags
                &&& p.header_flags == h.header_flags && p.width == h.width && p.height == h.height
                &&& p.frame_count == h.frame_count && p.max_frames == h.max_frames
                &&& p.scale_x == h.scale_x && p.scale_y == h.scale_y && p.is_scaled == h.is_scaled
                &&& p.data_size == h.data_size
                &&& p.palette@.len() == h.palette_count
                &&& forall|i: int|
                    0 <= i < h.palette_count ==> #[trigger] p.palette@[i] == [
                        data@[12 + 3 * i],
                        data@[12 + 3 * i + 1],
                        data@[12 + 3 * i + 2],
                    ]
                &&& p.secondary_frames@.len() == h.secondary_frame_count
                &&& forall|i: int|
                    0 <= i < h.secondary_frame_count ==> #[trigger] p.secondary_frames@[i]
                        == spec_sprite_frame(data@, h.secondary_frame_offset + 12 * i)
                &&& p.frames@.len() == h.frame_count
                &&& forall|i: int|
                    0 <= i < h.frame_count ==> #[trigger] p.frames@[i] == spec_sprite_frame(
                        data@,
                        h.frame_meta_offset + 12 * i,
                    )
                &&& p.bitmap@ == data@.subrange(h.bitmap_offset as int, data@.len() as int)
            },
    {
        let hdr = match parse_spr_header(data) {
            Ok(h) => h,
            Err(e) => return Err(e),
        };
        let mut palette: Vec<[u8; 3]> = Vec::new();
        let mut offset: usize = hdr.palette_offset;
        let mut i: u16 = 0;
        while i < hdr.palette_count
            invariant
                hdr == spec_spr_header(data@)->Ok_0,
                spec_spr_header(data@) is Ok,
                i <= hdr.palette_count,
                offset == 12 + 3 * i,
                palette@.len() == i,
                forall|k: int|
                    0 <= k < i ==> #[trigger] palette@[k] == [
                        data@[12 + 3 * k],
                        data@[12 + 3 * k + 1],
                        data@[12 + 3 * k + 2],
                    ],
            decreases hdr.palette_count - i,
        {
            palette.push([data[offset], data[offset + 1], data[offset + 2]]);
            offset = offset + 3;
            i = i + 1;
        }
        let mut secondary_frames: Vec<SpriteFrame> = Vec::new();
        let mut off: usize = hdr.secondary_frame_offset;
        let mut j: u16 = 0;
        while j < hdr.secondary_frame_count
            invariant
                hdr == spec_spr_header(data@)->Ok_0,
                spec_spr_header(data@) is Ok,
                j <= hdr.secondary_frame_count,
                off == hdr.secondary_frame_offset + 12 * j,
                secondary_frames@.len() == j,
                forall|k: int|
                    0 <= k < j ==> #[trigger] secondary_frames@[k] == spec_sprite_frame(
                        data@,
                        hdr.secondary_frame_offset + 12 * k,
                    ),
            decreases hdr.secondary_frame_count - j,
        {
            secondary_frames.push(read_sprite_frame(data, off));
            off = off + 12;
            j = j + 1;
        }
        let mut frames: Vec<SpriteFrame> = Vec::new();
        let mut off2: usize = hdr.frame_meta_offset;
        let mut k: u16 = 0;
        while k < hdr.frame_count
            invariant
                hdr == spec_spr_header(data@)->Ok_0,
                spec_spr_header(data@) is Ok,
                spr_frames_fit(data@),
                k <= hdr.frame_count,
                off2 == hdr.frame_meta_offset + 12 * k,
                frames@.len() == k,
                forall|m: int|
                    0 <= m < k ==> #[trigger] frames@[m] == spec_sprite_frame(
                        data@,
                        hdr.frame_meta_offset + 12 * m,
                    ),
            decreases hdr.frame_count - k,
        {
            frames.push(read_sprite_frame(data, off2));
            off2 = off2 + 12;
            k = k + 1;
        }
        let mut bitmap: Vec<u8> = Vec::new();
        let mut b: usize = hdr.bitmap_offset;
        while b < data.len()
            invariant
                hdr.bitmap_offset <= b <= data@.len(),
                bitmap@ == data@.subrange(hdr.bitmap_offset as int, b as int),
            decreases data.len() - b,
        {
            bitmap.push(data[b]);
            b = b + 1;
            assert(bitmap@ =~= data@.subrange(hdr.bitmap_offset as int, b as int));
        }
        Ok(
            ParsedSprite {
                unknown_08: hdr.unknown_08,
                fps: hdr.fps,
                flags: hdr.flags,
                header_flags: hdr.header_flags,
                width: hdr.width,
                height: hdr.height,
                frame_count: hdr.frame_count,
                max_frames: hdr.max_frames,
                scale_x: hdr.scale_x,
                scale_y: hdr.scale_y,
                is_scaled: hdr.is_scaled,
                palette,
                frames,
                secondary_frames,
                bitmap,
                data_size: hdr.data_size,
            },
        )
    }
}

} // verus!
