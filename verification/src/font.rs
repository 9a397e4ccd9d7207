//! Bitmap fonts: the glyph table, advance metrics, and the two ways a font
//! gains glyphs after loading (a `.fex` extension file, and the `.`/`;`
//! glyphs derived for the seven-segment font).
//!
//! A font's pixels live in one byte space that every glyph's `pixel_offset`
//! indexes; the glyph rows of a stored glyph are `width` bytes apart.
use vstd::prelude::*;

use crate::bytes::{le_u16, le_u32, read_u16_le, read_u32_le};

verus! {

/// One glyph of a font: its bounding box inside the glyph cell and where its
/// pixels start.
#[derive(Debug, Clone, Copy, PartialEq, Eq, Structural)]
pub struct GlyphEntry {
    pub start_x: u16,
    pub start_y: u16,
    pub width: u16,
    pub height: u16,
    pub pixel_offset: u32,
}

/// A font's metrics and tables: the cell width, the advance of an unmapped
/// character, the glyphs, and the 256-entry table from a character code to
/// its 1-based glyph index (0: no glyph).
#[derive(Debug, Clone)]
pub struct Font {
    pub width: u16,
    pub width_div_5: u16,
    /// The number of glyphs that came with the font file; glyphs added
    /// later store their rows `width` bytes apart.
    pub file_glyphs: u16,
    pub glyphs: Vec<GlyphEntry>,
    pub char_to_glyph: Vec<u8>,
}

/// The 1-based glyph index `idx` names a glyph of `glyphs`.
pub open spec fn glyph_index_ok(glyphs: Seq<GlyphEntry>, idx: u8) -> bool {
    idx as int <= glyphs.len()
}

/// `width as i16` taken as a signed number.
pub open spec fn signed16(v: u16) -> int {
    if v < 0x8000 { v as int } else { v as int - 0x10000 }
}

/// The bits of a `u16` read as an `i16`.
pub fn as_signed16(v: u16) -> (r: i32)
    ensures
        r == signed16(v),
{
    assert(v < 0x8000 ==> (v as i16) as i32 == v as i32) by (bit_vector);
    assert(v >= 0x8000 ==> (v as i16) as i32 == (v as i32) - 0x10000) by (bit_vector);
    v as i16 as i32
}

impl Font {
    /// Well-formedness: the character table has 256 entries, each naming a
    /// glyph or none, and the glyph count fits the font's 16-bit count.
    pub open spec fn wf(&self) -> bool {
        &&& self.char_to_glyph@.len() == 256
        &&& self.glyphs@.len() <= 0xFFFF
        &&& forall|c: int|
            0 <= c < 256 ==> #[trigger] glyph_index_ok(self.glyphs@, self.char_to_glyph@[c])
    }

    /// The glyph that character code `c` maps to, if any.
    pub open spec fn glyph_of(&self, c: int) -> Option<GlyphEntry> {
        let idx = self.char_to_glyph@[c];
        if idx == 0 {
            None
        } else {
            Some(self.glyphs@[idx - 1])
        }
    }

    /// The advance of glyph `g`: its width plus one pixel of spacing.
    pub open spec fn advance_of(g: GlyphEntry) -> int {
        g.width + 1
    }

    /// The advance of character code `c`: that of its glyph, or the advance
    /// of an unmapped character.
    pub open spec fn char_advance(&self, c: int) -> int {
        match self.glyph_of(c) {
            Some(g) => Self::advance_of(g),
            None => signed16(self.width_div_5),
        }
    }

    /// The largest advance of the first `n` glyphs, starting from the advance
    /// of an unmapped character.
    pub open spec fn max_advance(&self, n: int) -> int
        decreases n,
    {
        if n <= 0 {
            signed16(self.width_div_5)
        } else {
            let m = self.max_advance(n - 1);
            let a = Self::advance_of(self.glyphs@[n - 1]);
            if m < a {
                a
            } else {
                m
            }
        }
    }

    /// The sum of the advances of the codes in `text`.
    pub open spec fn text_advance(&self, text: Seq<u8>) -> int
        decreases text.len(),
    {
        if text.len() == 0 {
            0
        } else {
            self.text_advance(text.drop_last()) + self.char_advance(text.last() as int)
        }
    }
}

/// The advance of the glyph with 1-based index `idx`.
pub fn glyph_advance_metric(font: &Font, idx: u8) -> (r: i32)
    requires
        font.wf(),
        1 <= idx,
        glyph_index_ok(font.glyphs@, idx),
    ensures
        r == Font::advance_of(font.glyphs@[idx - 1]),
{
    let g = font.glyphs[(idx - 1) as usize];
    g.width as i32 + 1
}

/// The cell width and the largest advance of any glyph (at least the
/// advance of an unmapped character), as `(max_advance, width)`.
pub fn font_get_info_impl(font: &Font) -> (r: (i32, i32))
    requires
        font.wf(),
    ensures
        r.0 == font.max_advance(font.glyphs@.len() as int),
        r.1 == signed16(font.width),
{
    let width: i32 = as_signed16(font.width);
    let mut max_metric: i32 = as_signed16(font.width_div_5);
    let mut i: usize = 0;
    while i < font.glyphs.len()
        invariant
            i <= font.glyphs@.len(),
            max_metric == font.max_advance(i as int),
            -0x8000 <= max_metric <= 0x10000,
        decreases font.glyphs@.len() - i,
    {
        let candidate: i32 = font.glyphs[i].width as i32 + 1;
        if max_metric < candidate {
            max_metric = candidate;
        }
        i = i + 1;
    }
    (max_metric, width)
}

/// The advance of character code `c` when the font can draw it: the
/// cell width, and the advance (`None` for a code with no glyph; space
/// and no-break space always have the unmapped advance).
pub fn font_get_metric_impl(font: &Font, c: u8) -> (r: (i32, Option<i32>))
    requires
        font.wf(),
    ensures
        r.0 == signed16(font.width),
        (c == 0x20 || c == 0xA0) ==> r.1 == Some(signed16(font.width_div_5) as i32),
        (c != 0x20 && c != 0xA0) ==> r.1 == (match font.glyph_of(c as int) {
            Some(g) => Some(Font::advance_of(g) as i32),
            None => None,
        }),
{
    let width: i32 = as_signed16(font.width);
    if c != 0x20 && c != 0xA0 {
        let idx = font.char_to_glyph[c as usize];
        assert(glyph_index_ok(font.glyphs@, font.char_to_glyph@[c as int]));
        if idx == 0 {
            return (width, None);
        }
        return (width, Some(glyph_advance_metric(font, idx)));
    }
    (width, Some(as_signed16(font.width_div_5)))
}

/// The total advance of `text` up to its first zero byte, and the cell
/// width, as `(total, width)`.
pub fn font_set_param_impl(font: &Font, text: &[u8]) -> (r: (i32, i32))
    requires
        font.wf(),
        text@.len() < 0x8000,
    ensures
        r.0 == font.text_advance(text@.take(cstr_len(text@))),
        r.1 == signed16(font.width),
{
    let width: i32 = as_signed16(font.width);
    let mut total: i32 = 0;
    let mut i: usize = 0;
    while i < text.len() && text[i] != 0
        invariant
            i <= text@.len() < 0x8000,
            forall|j: int| 0 <= j < i ==> text@[j] != 0,
            total == font.text_advance(text@.take(i as int)),
            -0x8000 * i <= total <= 0x10000 * i,
            font.wf(),
        decreases text@.len() - i,
    {
        let c = text[i];
        let idx = font.char_to_glyph[c as usize];
        assert(glyph_index_ok(font.glyphs@, font.char_to_glyph@[c as int]));
        let advance: i32 = if idx == 0 {
            as_signed16(font.width_div_5)
        } else {
            glyph_advance_metric(font, idx)
        };
        proof {
            assert(text@.take(i + 1).drop_last() =~= text@.take(i as int));
        }
        total = total + advance;
        i = i + 1;
    }
    proof {
        lemma_cstr_len(text@, i as int);
    }
    (total, width)
}

/// The largest advance of the first `n` glyphs is at least the advance of
/// an unmapped character and of each of those glyphs, and equals one of
/// them.
pub proof fn lemma_max_advance_is_max(font: Font, n: int)
    requires
        0 <= n <= font.glyphs@.len(),
    ensures
        font.max_advance(n) >= signed16(font.width_div_5),
        forall|k: int| 0 <= k < n ==> font.max_advance(n) >= Font::advance_of(#[trigger] font.glyphs@[k]),
        font.max_advance(n) == signed16(font.width_div_5) || exists|k: int|
            0 <= k < n && font.max_advance(n) == Font::advance_of(#[trigger] font.glyphs@[k]),
    decreases n,
{
    if n > 0 {
        lemma_max_advance_is_max(font, n - 1);
        if font.max_advance(n) == Font::advance_of(font.glyphs@[n - 1]) {
            assert(Font::advance_of(font.glyphs@[n - 1]) == font.max_advance(n));
        }
    }
}

/// The length of the C string at the start of `s`: the index of its first
/// zero byte, or the whole length.
pub open spec fn cstr_len(s: Seq<u8>) -> int
    decreases s.len(),
{
    if s.len() == 0 {
        0
    } else if s[0] == 0 {
        0
    } else {
        1 + cstr_len(s.drop_first())
    }
}

pub proof fn lemma_cstr_len(s: Seq<u8>, i: int)
    requires
        0 <= i <= s.len(),
        forall|j: int| 0 <= j < i ==> s[j] != 0,
        i == s.len() || s[i] == 0,
    ensures
        cstr_len(s) == i,
    decreases i,
{
    if i > 0 {
        lemma_cstr_len(s.drop_first(), i - 1);
    }
}

/// A string without a zero byte in its first `n` bytes has a C string at
/// least `n` long.
pub proof fn lemma_cstr_len_ge(s: Seq<u8>, n: int)
    requires
        0 <= n <= s.len(),
        forall|j: int| 0 <= j < n ==> s[j] != 0,
    ensures
        cstr_len(s) >= n,
    decreases n,
{
    if n > 0 {
        assert forall|j: int| 0 <= j < n - 1 implies s.drop_first()[j] != 0 by {
            assert(s[j + 1] != 0);
        }
        lemma_cstr_len_ge(s.drop_first(), n - 1);
        assert(s[0] != 0);
    } else {
        lemma_cstr_len_le(s);
    }
}

/// The C string at the start of `s` lies inside `s`.
pub proof fn lemma_cstr_len_le(s: Seq<u8>)
    ensures
        0 <= cstr_len(s) <= s.len(),
    decreases s.len(),
{
    if s.len() > 0 {
        lemma_cstr_len_le(s.drop_first());
    }
}

/// `v` minus `v / 255` (rounded toward zero) times 255: the remainder of a
/// division by 255 that keeps the sign of `v`.
pub open spec fn mod_255(v: int) -> int {
    if v >= 0 {
        v % 255
    } else {
        -((-v) % 255)
    }
}

/// The remainder of `value` divided by 255, with the sign of `value`.
pub fn mod_255_signed(value: i32) -> (r: i32)
    ensures
        r == mod_255(value as int),
{
    let q: i32 = value / 255;
    proof {
        if value < 0 {
            assert(-(value as int) % 255 == (-(value as int)) - (-(q as int)) * 255)
                by (nonlinear_arith)
                requires
                    value < 0,
                    q == -((-(value as int)) / 255),
            ;
        }
    }
    value - q * 255
}

/// Colour `i` of a stepped palette: channel `k` is `i` times the `k`-th
/// byte of `palette_value`, reduced mod 255; red in the low byte.
pub open spec fn step_color(palette_value: u32, i: int) -> u32 {
    let r = mod_255(i * (palette_value & 0xff) as int);
    let g = mod_255(i * ((palette_value >> 8) & 0xff) as int);
    let b = mod_255(i * ((palette_value >> 16) & 0xff) as int);
    (r + g * 0x100 + b * 0x10000) as u32
}

/// The 256 colours of the stepped palette of `palette_value` (see
/// `step_color`), whose nearest palette entries make a font's colour table.
pub fn palette_step_colors(palette_value: u32) -> (r: Vec<u32>)
    ensures
        r@.len() == 256,
        forall|i: int| 0 <= i < 256 ==> r@[i] == step_color(palette_value, i),
{
    assert(palette_value & 0xff < 256) by (bit_vector);
    assert((palette_value >> 8) & 0xff < 256) by (bit_vector);
    assert((palette_value >> 16) & 0xff < 256) by (bit_vector);
    let r_step: i32 = (palette_value & 0xff) as i32;
    let g_step: i32 = ((palette_value >> 8) & 0xff) as i32;
    let b_step: i32 = ((palette_value >> 16) & 0xff) as i32;
    let mut out: Vec<u32> = Vec::new();
    let mut acc_r: i32 = 0;
    let mut acc_g: i32 = 0;
    let mut acc_b: i32 = 0;
    let mut i: usize = 0;
    while i < 256
        invariant
            i <= 256,
            out@.len() == i,
            0 <= r_step < 256,
            0 <= g_step < 256,
            0 <= b_step < 256,
            r_step == palette_value & 0xff,
            g_step == (palette_value >> 8) & 0xff,
            b_step == (palette_value >> 16) & 0xff,
            acc_r == i * r_step,
            acc_g == i * g_step,
            acc_b == i * b_step,
            forall|j: int| 0 <= j < i ==> out@[j] == step_color(palette_value, j),
        decreases 256 - i,
    {
        proof {
            assert(0 <= i * r_step <= 255 * 255) by (nonlinear_arith)
                requires
                    i < 256,
                    0 <= r_step < 256,
            ;
            assert(0 <= i * g_step <= 255 * 255) by (nonlinear_arith)
                requires
                    i < 256,
                    0 <= g_step < 256,
            ;
            assert(0 <= i * b_step <= 255 * 255) by (nonlinear_arith)
                requires
                    i < 256,
                    0 <= b_step < 256,
            ;
        }
        let r = mod_255_signed(acc_r);
        let g = mod_255_signed(acc_g);
        let b = mod_255_signed(acc_b);
        let composed: u32 = (r as u32) + (g as u32) * 0x100 + (b as u32) * 0x10000;
        out.push(composed);
        proof {
            assert((i + 1) * r_step == i * r_step + r_step) by (nonlinear_arith);
            assert((i + 1) * g_step == i * g_step + g_step) by (nonlinear_arith);
            assert((i + 1) * b_step == i * b_step + b_step) by (nonlinear_arith);
        }
        acc_r = acc_r + r_step;
        acc_g = acc_g + g_step;
        acc_b = acc_b + b_step;
        i = i + 1;
    }
    out
}

/// Pixel (`r`, `c`) of the square glyph cell of side `fw` whose first row
/// starts at `base`; rows are `fw` bytes apart.
pub open spec fn cell_px(p: Seq<u8>, base: int, fw: int, r: int, c: int) -> u8 {
    p[base + r * fw + c]
}

/// Column `k` (`by_col`) or row `k` of the cell holds a nonzero pixel.
pub open spec fn line_inked(p: Seq<u8>, base: int, fw: int, k: int, by_col: bool) -> bool {
    exists|j: int|
        0 <= j < fw && (if by_col {
            cell_px(p, base, fw, j, k)
        } else {
            cell_px(p, base, fw, k, j)
        }) != 0
}

/// The first inked column (or row) from `k` on, or -1.
pub open spec fn first_line_from(p: Seq<u8>, base: int, fw: int, k: int, by_col: bool) -> int
    decreases fw - k,
{
    if k >= fw {
        -1
    } else if line_inked(p, base, fw, k, by_col) {
        k
    } else {
        first_line_from(p, base, fw, k + 1, by_col)
    }
}

/// The last inked column (or row) below `k`, or -1.
pub open spec fn last_line_below(p: Seq<u8>, base: int, fw: int, k: int, by_col: bool) -> int
    decreases k,
{
    if k <= 0 {
        -1
    } else if line_inked(p, base, fw, k - 1, by_col) {
        k - 1
    } else {
        last_line_below(p, base, fw, k - 1, by_col)
    }
}

pub open spec fn or_zero(x: int) -> int {
    if x >= 0 {
        x
    } else {
        0
    }
}

/// The tight box of the inked pixels of a glyph cell, as (left column, top
/// row, right column, bottom row); a cell with no ink gives the whole cell.
pub open spec fn glyph_box(p: Seq<u8>, base: int, fw: int) -> (int, int, int, int) {
    let sx = first_line_from(p, base, fw, 0, true);
    if sx >= 0 {
        (
            sx,
            or_zero(first_line_from(p, base, fw, 0, false)),
            or_zero(last_line_below(p, base, fw, fw, true)),
            or_zero(last_line_below(p, base, fw, fw, false)),
        )
    } else {
        (0, 0, or_zero(fw - 1), or_zero(fw - 1))
    }
}

/// `a - b`, or 0 when `b` is larger.
pub open spec fn sat_sub(a: int, b: int) -> int {
    if a >= b {
        a - b
    } else {
        0
    }
}

/// The glyph entry for a cell of side `fw` whose pixels start `base` bytes
/// into an area that lies `delta` bytes (mod 2^32) after the font's pixels.
pub open spec fn boxed_glyph(p: Seq<u8>, base: int, fw: int, delta: u32) -> GlyphEntry {
    let b = glyph_box(p, base, fw);
    GlyphEntry {
        start_x: b.0 as u16,
        start_y: b.1 as u16,
        width: (sat_sub(b.2, b.0) + 1) as u16,
        height: (sat_sub(b.3, b.1) + 1) as u16,
        pixel_offset: ((delta + base + b.0 + b.1 * fw) % 0x1_0000_0000) as u32,
    }
}

proof fn lemma_cell_index(r: int, c: int, fw: int)
    requires
        0 <= r < fw,
        0 <= c < fw,
    ensures
        0 <= r * fw,
        r * fw + c < fw * fw,
{
    assert(0 <= r * fw) by (nonlinear_arith)
        requires
            0 <= r,
            0 <= fw,
    ;
    assert(r * fw + fw <= fw * fw) by (nonlinear_arith)
        requires
            r + 1 <= fw,
            0 <= fw,
    ;
}

/// Whether column `k` (`by_col`) or row `k` of the cell holds ink.
fn line_has_ink(p: &Vec<u8>, base: usize, fw: usize, k: usize, by_col: bool) -> (r: bool)
    requires
        k < fw,
        base + fw * fw <= p@.len(),
    ensures
        r == line_inked(p@, base as int, fw as int, k as int, by_col),
{
    let n: usize = p.len();
    let mut j: usize = 0;
    while j < fw
        invariant
            n == p@.len(),
            j <= fw,
            k < fw,
            base + fw * fw <= p@.len(),
            forall|jj: int|
                0 <= jj < j ==> (if by_col {
                    cell_px(p@, base as int, fw as int, jj, k as int)
                } else {
                    cell_px(p@, base as int, fw as int, k as int, jj)
                }) == 0,
        decreases fw - j,
    {
        let (r, c) = if by_col {
            (j, k)
        } else {
            (k, j)
        };
        proof {
            lemma_cell_index(r as int, c as int, fw as int);
        }
        let v = p[base + r * fw + c];
        if v != 0 {
            assert((if by_col {
                cell_px(p@, base as int, fw as int, j as int, k as int)
            } else {
                cell_px(p@, base as int, fw as int, k as int, j as int)
            }) != 0);
            return true;
        }
        j = j + 1;
    }
    false
}

/// The first inked column (or row) of the cell.
fn first_inked(p: &Vec<u8>, base: usize, fw: usize, by_col: bool) -> (r: Option<usize>)
    requires
        base + fw * fw <= p@.len(),
    ensures
        match r {
            Some(k) => k == first_line_from(p@, base as int, fw as int, 0, by_col) && k < fw,
            None => first_line_from(p@, base as int, fw as int, 0, by_col) == -1,
        },
{
    let mut k: usize = 0;
    while k < fw
        invariant
            k <= fw,
            base + fw * fw <= p@.len(),
            first_line_from(p@, base as int, fw as int, 0, by_col) == first_line_from(
                p@,
                base as int,
                fw as int,
                k as int,
                by_col,
            ),
        decreases fw - k,
    {
        if line_has_ink(p, base, fw, k, by_col) {
            return Some(k);
        }
        k = k + 1;
    }
    None
}

/// The last inked column (or row) of the cell.
fn last_inked(p: &Vec<u8>, base: usize, fw: usize, by_col: bool) -> (r: Option<usize>)
    requires
        base + fw * fw <= p@.len(),
    ensures
        match r {
            Some(k) => k == last_line_below(p@, base as int, fw as int, fw as int, by_col) && k
                < fw,
            None => last_line_below(p@, base as int, fw as int, fw as int, by_col) == -1,
        },
{
    let mut k: usize = fw;
    while k > 0
        invariant
            k <= fw,
            base + fw * fw <= p@.len(),
            last_line_below(p@, base as int, fw as int, fw as int, by_col) == last_line_below(
                p@,
                base as int,
                fw as int,
                k as int,
                by_col,
            ),
        decreases k,
    {
        if line_has_ink(p, base, fw, k - 1, by_col) {
            return Some(k - 1);
        }
        k = k - 1;
    }
    None
}

/// The box of the cell of side `fw` at `base` in `p` (see `glyph_box`).
fn cell_box(p: &Vec<u8>, base: usize, fw: usize) -> (b: (usize, usize, usize, usize))
    requires
        1 <= fw <= 0xFFFF,
        base + fw * fw <= p@.len(),
    ensures
        (b.0 as int, b.1 as int, b.2 as int, b.3 as int) == glyph_box(p@, base as int, fw as int),
        b.0 < fw,
        b.1 < fw,
        b.2 < fw,
        b.3 < fw,
{
    match first_inked(p, base, fw, true) {
        Some(sx) => {
            let sy: usize = match first_inked(p, base, fw, false) {
                Some(v) => v,
                None => 0,
            };
            let right: usize = match last_inked(p, base, fw, true) {
                Some(v) => v,
                None => 0,
            };
            let bottom: usize = match last_inked(p, base, fw, false) {
                Some(v) => v,
                None => 0,
            };
            (sx, sy, right, bottom)
        },
        None => (0, 0, fw - 1, fw - 1),
    }
}

/// `delta + off` modulo 2^32.
fn offset_after(delta: u32, off: u64) -> (r: u32)
    ensures
        r == (delta + off) % 0x1_0000_0000,
{
    let off32: u32 = (off % 0x1_0000_0000) as u32;
    let r: u32 = delta.wrapping_add(off32);
    assert(r == (delta + off) % 0x1_0000_0000) by (nonlinear_arith)
        requires
            off32 == off % 0x1_0000_0000,
            r == (delta + off32) % 0x1_0000_0000,
    ;
    r
}

/// The glyph entry of the cell of side `fw` at `base` in `p` (see
/// `boxed_glyph`).
pub fn glyph_entry_of_cell(p: &Vec<u8>, base: usize, fw: usize, delta: u32) -> (g: GlyphEntry)
    requires
        fw <= 0xFFFF,
        base + fw * fw <= p@.len(),
    ensures
        g == boxed_glyph(p@, base as int, fw as int, delta),
{
    if fw == 0 {
        let po: u32 = offset_after(delta, base as u64);
        return GlyphEntry { start_x: 0, start_y: 0, width: 1, height: 1, pixel_offset: po };
    }
    let n: usize = p.len();
    let (sx, sy, right, bottom) = cell_box(p, base, fw);
    let w: usize = if right >= sx {
        right - sx
    } else {
        0
    };
    let h: usize = if bottom >= sy {
        bottom - sy
    } else {
        0
    };
    proof {
        lemma_cell_index(sy as int, sx as int, fw as int);
    }
    let off: u64 = base as u64 + sx as u64 + (sy as u64) * (fw as u64);
    let po: u32 = offset_after(delta, off);
    GlyphEntry {
        start_x: sx as u16,
        start_y: sy as u16,
        width: (w + 1) as u16,
        height: (h + 1) as u16,
        pixel_offset: po,
    }
}

/// The row stride of a glyph in a `.fex` file: one padding byte per row for
/// fonts wider than 15 pixels.
pub open spec fn fex_row_stride(fw: int) -> int {
    if fw > 15 {
        fw + 1
    } else {
        fw
    }
}

/// The character table after the first `k` codes of `cm` were given the
/// glyphs that follow the `old_h` existing ones (1-based, mod 256).
pub open spec fn char_table_after(t: Seq<u8>, cm: Seq<u8>, old_h: int, k: int) -> Seq<u8>
    decreases k,
{
    if k <= 0 {
        t
    } else {
        char_table_after(t, cm, old_h, k - 1).update(cm[k - 1] as int, ((old_h + k) % 256) as u8)
    }
}

/// The glyph entries of the `n` cells of a `.fex` pixel block: cell `i`
/// starts `i * rs` rows of `fw` bytes in.
pub open spec fn fex_glyphs(p: Seq<u8>, fw: int, rs: int, n: int, delta: u32) -> Seq<GlyphEntry> {
    Seq::new(n as nat, |i: int| boxed_glyph(p, i * rs * fw, fw, delta))
}

/// `p` with every byte replaced by its entry in `lut`.
pub open spec fn remapped(p: Seq<u8>, lut: Seq<u8>) -> Seq<u8> {
    Seq::new(p.len(), |i: int| lut[p[i] as int])
}

/// Replaces every byte of `pixels` by its entry in the 256-entry `lut`.
pub fn remap_through_lut(pixels: &mut Vec<u8>, lut: &[u8])
    requires
        lut@.len() == 256,
    ensures
        final(pixels)@ == remapped(old(pixels)@, lut@),
{
    let n: usize = pixels.len();
    let mut i: usize = 0;
    while i < n
        invariant
            i <= n == pixels@.len() == old(pixels)@.len(),
            lut@.len() == 256,
            forall|j: int| 0 <= j < i ==> pixels@[j] == lut@[old(pixels)@[j] as int],
            forall|j: int| i <= j < n ==> pixels@[j] == old(pixels)@[j],
        decreases n - i,
    {
        let b = pixels[i];
        pixels.set(i, lut[b as usize]);
        i = i + 1;
    }
    assert(pixels@ =~= remapped(old(pixels)@, lut@));
}

/// The length of the C string at the start of `s`.
pub fn cstr_length(s: &[u8]) -> (n: usize)
    ensures
        n == cstr_len(s@),
        n <= s@.len(),
        forall|j: int| 0 <= j < n ==> s@[j] != 0,
{
    let mut i: usize = 0;
    while i < s.len() && s[i] != 0
        invariant
            i <= s@.len(),
            forall|j: int| 0 <= j < i ==> s@[j] != 0,
        decreases s@.len() - i,
    {
        i = i + 1;
    }
    proof {
        lemma_cstr_len(s@, i as int);
    }
    i
}

proof fn lemma_fex_cell(i: int, n: int, rs: int, fw: int)
    requires
        0 <= i < n,
        0 <= fw <= rs,
    ensures
        0 <= i * rs * fw,
        i * rs * fw + fw * fw <= n * fw * rs,
        0 <= rs * fw <= n * fw * rs,
        i * (rs * fw) == i * rs * fw,
{
    assert(0 <= rs * fw <= n * fw * rs) by (nonlinear_arith)
        requires
            0 <= i < n,
            0 <= fw <= rs,
    ;
    assert(i * (rs * fw) == i * rs * fw) by (nonlinear_arith);
    assert(0 <= i * rs * fw) by (nonlinear_arith)
        requires
            0 <= i,
            0 <= rs,
            0 <= fw,
    ;
    assert(i * rs * fw + fw * fw <= n * fw * rs) by (nonlinear_arith)
        requires
            0 <= i < n,
            0 <= fw <= rs,
    ;
}

/// Adds the glyphs of a `.fex` extension: `char_map` (a C string) lists
/// the codes of the new glyphs, and `pixels` holds their cells, each
/// `fw` rows of `fw` bytes with the rows of one cell `fex_row_stride(fw)`
/// apart (as read from the file). Each new glyph gets its tight inked
/// box, measured before the pixels are recoloured through `lut`; its
/// pixel offset counts from an area `delta` bytes after the font's
/// pixels. Later codes of `char_map` win over earlier equal ones.
pub fn font_extend(font: &mut Font, char_map: &[u8], pixels: &mut Vec<u8>, lut: &[u8], delta: u32)
    requires
        old(font).wf(),
        lut@.len() == 256,
        old(pixels)@.len() == cstr_len(char_map@) * old(font).width * fex_row_stride(
            old(font).width as int,
        ),
        old(font).glyphs@.len() + cstr_len(char_map@) <= 0xFFFF,
        (old(font).glyphs@.len() + cstr_len(char_map@)) * 12 + old(pixels)@.len() <= i32::MAX,
    ensures
        final(font).wf(),
        final(font).width == old(font).width,
        final(font).width_div_5 == old(font).width_div_5,
        final(font).file_glyphs == old(font).file_glyphs,
        final(font).glyphs@ == old(font).glyphs@ + fex_glyphs(
            old(pixels)@,
            old(font).width as int,
            fex_row_stride(old(font).width as int),
            cstr_len(char_map@),
            delta,
        ),
        final(font).char_to_glyph@ == char_table_after(
            old(font).char_to_glyph@,
            char_map@,
            old(font).glyphs@.len() as int,
            cstr_len(char_map@),
        ),
        final(pixels)@ == remapped(old(pixels)@, lut@),
{
    let fw: usize = font.width as usize;
    let rs: usize = if fw > 15 {
        fw + 1
    } else {
        fw
    };
    let n: usize = cstr_length(char_map);
    let old_h: usize = font.glyphs.len();
    let ghost t0 = font.char_to_glyph@;
    let ghost g0 = font.glyphs@;
    proof {
        assert forall|c: int| 0 <= c < 256 implies #[trigger] font.char_to_glyph@[c] as int
            <= old_h + n by {
            assert(glyph_index_ok(font.glyphs@, font.char_to_glyph@[c]));
        }
    }
    let mut i: usize = 0;
    while i < n
        invariant
            i <= n <= char_map@.len(),
            n == cstr_len(char_map@),
            old_h == g0.len(),
            old_h + n <= 0xFFFF,
            font.glyphs@ == g0,
            font.width == old(font).width,
            font.width_div_5 == old(font).width_div_5,
            font.file_glyphs == old(font).file_glyphs,
            font.char_to_glyph@ == char_table_after(t0, char_map@, old_h as int, i as int),
            font.char_to_glyph@.len() == 256,
            forall|c: int|
                0 <= c < 256 ==> #[trigger] font.char_to_glyph@[c] as int <= old_h + n,
        decreases n - i,
    {
        let ch = char_map[i];
        let v: u8 = ((old_h + i + 1) % 256) as u8;
        font.char_to_glyph.set(ch as usize, v);
        i = i + 1;
    }
    let mut k: usize = 0;
    while k < n
        invariant
            k <= n,
            n == cstr_len(char_map@),
            old_h == g0.len(),
            old_h + n <= 0xFFFF,
            fw == font.width,
            fw == old(font).width,
            rs == fex_row_stride(fw as int),
            fw <= rs,
            pixels@ == old(pixels)@,
            pixels@.len() == n * fw * rs,
            pixels@.len() <= i32::MAX,
            font.width_div_5 == old(font).width_div_5,
            font.file_glyphs == old(font).file_glyphs,
            font.glyphs@ == g0 + fex_glyphs(old(pixels)@, fw as int, rs as int, k as int, delta),
            font.char_to_glyph@ == char_table_after(t0, char_map@, old_h as int, n as int),
            font.char_to_glyph@.len() == 256,
            forall|c: int|
                0 <= c < 256 ==> #[trigger] font.char_to_glyph@[c] as int <= old_h + n,
        decreases n - k,
    {
        proof {
            lemma_fex_cell(k as int, n as int, rs as int, fw as int);
        }
        let base: usize = k * (rs * fw);
        let g = glyph_entry_of_cell(pixels, base, fw, delta);
        font.glyphs.push(g);
        proof {
            assert(fex_glyphs(old(pixels)@, fw as int, rs as int, k + 1, delta) =~= fex_glyphs(
                old(pixels)@,
                fw as int,
                rs as int,
                k as int,
                delta,
            ).push(g));
        }
        k = k + 1;
    }
    remap_through_lut(pixels, lut);
    proof {
        assert forall|c: int| 0 <= c < 256 implies #[trigger] glyph_index_ok(
            font.glyphs@,
            font.char_to_glyph@[c],
        ) by {
            assert(font.char_to_glyph@[c] as int <= old_h + n);
        }
    }
}

/// The glyph of 1-based index `idx` (which must be nonzero).
pub open spec fn glyph_at(glyphs: Seq<GlyphEntry>, idx: u8) -> GlyphEntry {
    glyphs[idx - 1]
}

/// Pixel (`r`, `c`) of the two glyphs derived from `:` for the digital
/// font, laid out as `2 * colon.height` rows of `fw` bytes. In the first
/// (`.`) the first half of the bytes of its rows is `fill` and the lower
/// half of `:` is copied over them; the second (`;`) is `:` with colour
/// `eight_fg` replaced by `minus_fg`. Bytes right of the colon's width are
/// zero.
pub open spec fn derived_px(
    px: Seq<u8>,
    colon: GlyphEntry,
    fw: int,
    fill: u8,
    minus_fg: u8,
    eight_fg: u8,
    r: int,
    c: int,
) -> u8 {
    let ch = colon.height as int;
    let cw = colon.width as int;
    let co = colon.pixel_offset as int;
    if r < ch {
        if r >= ch / 2 && c < cw {
            px[co + r * cw + c]
        } else if r * fw + c < (ch * fw) / 2 {
            fill
        } else {
            0u8
        }
    } else if c < cw {
        let v = px[co + (r - ch) * cw + c];
        if v == eight_fg {
            minus_fg
        } else {
            v
        }
    } else {
        0u8
    }
}

/// `glyph` with its pixels moved to `offset`.
pub open spec fn moved_glyph(g: GlyphEntry, offset: int) -> GlyphEntry {
    GlyphEntry { pixel_offset: (offset % 0x1_0000_0000) as u32, ..g }
}

/// The glyphs that `-`, `8` and `:` map to all exist.
pub open spec fn has_digit_template(font: Font) -> bool {
    &&& font.char_to_glyph@[0x2D] != 0
    &&& font.char_to_glyph@[0x38] != 0
    &&& font.char_to_glyph@[0x3A] != 0
}

/// What deriving the `.`/`;` glyphs needs of the font and of its pixel
/// bytes `px`: the sampled pixels exist, the colon's rows fit the cell, and
/// the sizes fit the font's 16- and 32-bit fields.
pub open spec fn digit_template_fits(font: Font, px: Seq<u8>) -> bool {
    let minus = glyph_at(font.glyphs@, font.char_to_glyph@[0x2D]);
    let eight = glyph_at(font.glyphs@, font.char_to_glyph@[0x38]);
    let colon = glyph_at(font.glyphs@, font.char_to_glyph@[0x3A]);
    &&& font.width < 0x8000
    &&& minus.pixel_offset + 5 < px.len()
    &&& eight.pixel_offset + 5 < px.len()
    &&& colon.pixel_offset + colon.height * colon.width <= px.len()
    &&& colon.width <= font.width
    &&& font.glyphs@.len() + 2 <= 0xFFFF
    &&& colon.height * font.width * 2 + (font.glyphs@.len() + 2) * 12 <= i32::MAX
}

proof fn lemma_row_index(r: int, c: int, w: int, rows: int)
    requires
        0 <= r < rows,
        0 <= c < w,
    ensures
        0 <= r * w,
        r * w + c < rows * w,
        r * w + c >= 0,
{
    assert(0 <= r * w) by (nonlinear_arith)
        requires
            0 <= r,
            0 <= w,
    ;
    assert(r * w + w <= rows * w) by (nonlinear_arith)
        requires
            r + 1 <= rows,
            0 <= w,
    ;
}

/// Gives the digital font the glyphs `.` and `;`, derived from `:` (see
/// `derived_px`), when it has glyphs for `-`, `8` and `:`; returns 1 and
/// the pixels of the two new glyphs (which lie `delta` bytes after the
/// font's pixels `px`), or 0 and no pixels, with the font unchanged, when
/// one of the three is missing. `fill` colours the top of `.`; the colours
/// swapped in `;` are byte 5 of the `8` and of the `-` glyph.
pub fn font_set_palette_impl(font: &mut Font, px: &Vec<u8>, palette_value: u32, delta: u32) -> (r: (u32, Vec<u8>))
    requires
        old(font).wf(),
        has_digit_template(*old(font)) ==> digit_template_fits(*old(font), px@),
    ensures
        !has_digit_template(*old(font)) ==> r.0 == 0 && r.1@.len() == 0 && *final(font) == *old(font),
        has_digit_template(*old(font)) ==> ({
            let t = old(font).char_to_glyph@;
            let g = old(font).glyphs@;
            let minus = glyph_at(g, t[0x2D]);
            let eight = glyph_at(g, t[0x38]);
            let colon = glyph_at(g, t[0x3A]);
            let fw = old(font).width as int;
            let h = g.len() as int;
            &&& r.0 == 1
            &&& final(font).wf()
            &&& final(font).width == old(font).width
            &&& final(font).width_div_5 == old(font).width_div_5
            &&& final(font).file_glyphs == old(font).file_glyphs
            &&& final(font).glyphs@ == g.push(moved_glyph(colon, delta as int)).push(
                moved_glyph(colon, delta + colon.height * fw),
            )
            &&& final(font).char_to_glyph@ == t.update(0x2E, ((h + 1) % 256) as u8).update(
                0x3B,
                ((h + 2) % 256) as u8,
            )
            &&& r.1@.len() == 2 * colon.height * fw
            &&& forall|row: int, c: int|
                0 <= row < 2 * colon.height && 0 <= c < fw ==> #[trigger] r.1@[row * fw + c]
                    == derived_px(
                    px@,
                    colon,
                    fw,
                    (palette_value % 256) as u8,
                    px@[minus.pixel_offset + 5],
                    px@[eight.pixel_offset + 5],
                    row,
                    c,
                )
        }),
{
    let minus_idx = font.char_to_glyph[0x2D];
    if minus_idx == 0 {
        return (0, Vec::new());
    }
    let eight_idx = font.char_to_glyph[0x38];
    if eight_idx == 0 {
        return (0, Vec::new());
    }
    let colon_idx = font.char_to_glyph[0x3A];
    if colon_idx == 0 {
        return (0, Vec::new());
    }
    assert(glyph_index_ok(font.glyphs@, font.char_to_glyph@[0x2D]));
    assert(glyph_index_ok(font.glyphs@, font.char_to_glyph@[0x38]));
    assert(glyph_index_ok(font.glyphs@, font.char_to_glyph@[0x3A]));
    let n: usize = px.len();
    let minus_fg = px[font.glyphs[(minus_idx - 1) as usize].pixel_offset as usize + 5];
    let eight_fg = px[font.glyphs[(eight_idx - 1) as usize].pixel_offset as usize + 5];
    let colon = font.glyphs[(colon_idx - 1) as usize];
    let old_h: usize = font.glyphs.len();
    let fw: usize = font.width as usize;
    let ch: usize = colon.height as usize;
    let cw: usize = colon.width as usize;
    let co: usize = colon.pixel_offset as usize;
    let fill: u8 = (palette_value % 256) as u8;
    assert(2 * ch * fw == ch * fw * 2) by (nonlinear_arith);
    let half_bytes: usize = (ch * fw) / 2;
    let rows: usize = 2 * ch;
    let mut area: Vec<u8> = Vec::new();
    let mut row: usize = 0;
    while row < rows
        invariant
            n == px@.len(),
            rows == 2 * ch,
            ch == colon.height,
            cw == colon.width,
            co == colon.pixel_offset,
            cw <= fw,
            co + ch * cw <= n,
            half_bytes == (ch * fw) / 2,
            rows * fw <= i32::MAX,
            row <= rows,
            area@.len() == row * fw,
            forall|rr: int, c: int|
                0 <= rr < row && 0 <= c < fw ==> #[trigger] area@[rr * fw + c] == derived_px(
                    px@,
                    colon,
                    fw as int,
                    fill,
                    minus_fg,
                    eight_fg,
                    rr,
                    c,
                ),
        decreases rows - row,
    {
        let mut c: usize = 0;
        while c < fw
            invariant
                n == px@.len(),
                rows == 2 * ch,
                ch == colon.height,
                cw == colon.width,
                co == colon.pixel_offset,
                cw <= fw,
                co + ch * cw <= n,
                half_bytes == (ch * fw) / 2,
                rows * fw <= i32::MAX,
                row < rows,
                c <= fw,
                area@.len() == row * fw + c,
                forall|rr: int, cc: int|
                    0 <= rr < row && 0 <= cc < fw ==> #[trigger] area@[rr * fw + cc] == derived_px(
                        px@,
                        colon,
                        fw as int,
                        fill,
                        minus_fg,
                        eight_fg,
                        rr,
                        cc,
                    ),
                forall|cc: int|
                    0 <= cc < c ==> #[trigger] area@[row * fw + cc] == derived_px(
                        px@,
                        colon,
                        fw as int,
                        fill,
                        minus_fg,
                        eight_fg,
                        row as int,
                        cc,
                    ),
            decreases fw - c,
        {
            proof {
                lemma_row_index(row as int, c as int, fw as int, rows as int);
            }
            let v: u8 = if row < ch {
                if row >= ch / 2 && c < cw {
                    proof {
                        lemma_row_index(row as int, c as int, cw as int, ch as int);
                    }
                    px[co + row * cw + c]
                } else if row * fw + c < half_bytes {
                    fill
                } else {
                    0
                }
            } else if c < cw {
                proof {
                    lemma_row_index((row - ch) as int, c as int, cw as int, ch as int);
                }
                let s = px[co + (row - ch) * cw + c];
                if s == eight_fg {
                    minus_fg
                } else {
                    s
                }
            } else {
                0
            };
            let ghost before = area@;
            area.push(v);
            proof {
                assert forall|rr: int, cc: int|
                    0 <= rr < row && 0 <= cc < fw implies #[trigger] area@[rr * fw + cc]
                    == derived_px(px@, colon, fw as int, fill, minus_fg, eight_fg, rr, cc) by {
                    lemma_row_index(rr, cc, fw as int, row as int);
                    assert(area@[rr * fw + cc] == before[rr * fw + cc]);
                }
                assert forall|cc: int| 0 <= cc < c + 1 implies #[trigger] area@[row * fw + cc]
                    == derived_px(px@, colon, fw as int, fill, minus_fg, eight_fg, row as int, cc) by {
                    if cc < c {
                        assert(area@[row * fw + cc] == before[row * fw + cc]);
                    }
                }
            }
            c = c + 1;
        }
        proof {
            assert((row + 1) * fw == row * fw + fw) by (nonlinear_arith);
        }
        row = row + 1;
    }
    let ghost g0 = font.glyphs@;
    let first = GlyphEntry { pixel_offset: delta, ..colon };
    assert(ch * fw <= 0xFFFF * 0xFFFF) by (nonlinear_arith)
        requires
            ch <= 0xFFFF,
            fw <= 0xFFFF,
    ;
    let second = GlyphEntry { pixel_offset: offset_after(delta, (ch as u64) * (fw as u64)), ..colon };
    font.glyphs.push(first);
    font.glyphs.push(second);
    let v1: u8 = ((old_h + 1) % 256) as u8;
    let v2: u8 = ((old_h + 2) % 256) as u8;
    font.char_to_glyph.set(0x2E, v1);
    font.char_to_glyph.set(0x3B, v2);
    proof {
        assert(first == moved_glyph(colon, delta as int));
        assert forall|c: int| 0 <= c < 256 implies #[trigger] glyph_index_ok(
            font.glyphs@,
            font.char_to_glyph@[c],
        ) by {
            if c != 0x2E && c != 0x3B {
                assert(glyph_index_ok(old(font).glyphs@, old(font).char_to_glyph@[c]));
            }
        }
    }
    (1, area)
}

/// The fixed 12-byte header of a `.fnt` record.
#[derive(Debug, Clone, Copy, PartialEq, Eq, Structural)]
pub struct FntHeader {
    pub _unknown_00: u32,
    /// Total size of the record in bytes, this header included.
    pub data_size: i32,
    pub _unknown_08: u16,
    /// Number of RGB triplets after the header.
    pub palette_count: u16,
}

/// The bits of a `u32` read as an `i32`.
pub open spec fn signed32(v: u32) -> int {
    if v < 0x8000_0000 {
        v as int
    } else {
        v as int - 0x1_0000_0000
    }
}

/// The header at the start of `b`.
pub open spec fn fnt_header_of(b: Seq<u8>) -> FntHeader {
    FntHeader {
        _unknown_00: le_u32(b, 0),
        data_size: signed32(le_u32(b, 4)) as i32,
        _unknown_08: le_u16(b, 8),
        palette_count: le_u16(b, 10),
    }
}

/// Where the 256-entry character table starts: after the header and the
/// RGB triplets.
pub open spec fn fnt_char_table_at(b: Seq<u8>) -> int {
    12 + 3 * le_u16(b, 10)
}

/// `x` rounded up to a multiple of four.
pub open spec fn align4(x: int) -> int {
    (x + 3) / 4 * 4
}

/// Where the glyph table starts: after the character table, the 16-bit
/// maximum width and glyph count, aligned to four bytes.
pub open spec fn fnt_glyphs_at(b: Seq<u8>) -> int {
    align4(fnt_char_table_at(b) + 0x104)
}

/// The number of glyphs.
pub open spec fn fnt_glyph_count(b: Seq<u8>) -> int {
    le_u16(b, fnt_char_table_at(b) + 0x102) as int
}

/// Where the pixel data starts: after the 12-byte glyph entries.
pub open spec fn fnt_pixels_at(b: Seq<u8>) -> int {
    fnt_glyphs_at(b) + 12 * fnt_glyph_count(b)
}

/// `b` holds a complete `.fnt` record layout up to the pixel data, with at
/// most 255 palette entries, and its sizes fit 32-bit signed arithmetic.
pub open spec fn fnt_fits(b: Seq<u8>) -> bool {
    &&& 12 <= b.len()
    &&& le_u16(b, 10) <= 255
    &&& fnt_char_table_at(b) + 0x104 <= b.len()
    &&& fnt_pixels_at(b) <= b.len()
    &&& b.len() <= i32::MAX
    &&& signed32(le_u32(b, 4)) - fnt_pixels_at(b) >= i32::MIN
}

/// The glyph entry stored at `off`.
pub open spec fn glyph_entry_at(b: Seq<u8>, off: int) -> GlyphEntry {
    GlyphEntry {
        start_x: le_u16(b, off),
        start_y: le_u16(b, off + 2),
        width: le_u16(b, off + 4),
        height: le_u16(b, off + 6),
        pixel_offset: le_u32(b, off + 8),
    }
}

/// The advance of an unmapped character for a font of maximum width `w`:
/// `w / 5` (toward zero) plus one, plus one more when the quotient is
/// negative, as 16 bits.
pub open spec fn width_seed(w: int) -> u16 {
    let q = if w >= 0 {
        w / 5
    } else {
        -((-w) / 5)
    };
    let v = q + (if q < 0 {
        1int
    } else {
        0
    }) + 1;
    (if v < 0 {
        v + 0x10000
    } else {
        v
    }) as u16
}

/// The number of whole 4-byte words of pixel data that the header's size
/// leaves after `pixels_at` (rounded toward zero, as 32 bits).
pub open spec fn pixel_dwords(data_size: int, pixels_at: int) -> u32 {
    let r = data_size - pixels_at;
    let q = if r >= 0 {
        r / 4
    } else {
        -((-r) / 4)
    };
    (if q < 0 {
        q + 0x1_0000_0000
    } else {
        q
    }) as u32
}

/// What parsing a `.fnt` record gives: the font's tables, the colours of
/// its palette (entry 0 is colour 0, then the RGB triplets, each read as
/// four bytes), where its pixels start and how many 4-byte words of them
/// the record holds.
#[derive(Debug, Clone)]
pub struct FntLayout {
    pub header: FntHeader,
    pub font: Font,
    pub palette_rgb: Vec<u32>,
    pub pixels_at: usize,
    pub pixel_dwords: u32,
}

/// Whether the character table of `font` names only existing glyphs (see
/// `Font::wf`).
pub fn font_tables_ok(font: &Font) -> (r: bool)
    ensures
        r == font.wf(),
{
    if font.char_to_glyph.len() != 256 || font.glyphs.len() > 0xFFFF {
        return false;
    }
    let n: usize = font.glyphs.len();
    let mut c: usize = 0;
    while c < 256
        invariant
            c <= 256,
            font.char_to_glyph@.len() == 256,
            n == font.glyphs@.len(),
            forall|j: int| 0 <= j < c ==> #[trigger] glyph_index_ok(font.glyphs@, font.char_to_glyph@[j]),
        decreases 256 - c,
    {
        if font.char_to_glyph[c] as usize > n {
            assert(!glyph_index_ok(font.glyphs@, font.char_to_glyph@[c as int]));
            return false;
        }
        c = c + 1;
    }
    true
}

/// Parses a `.fnt` record: its header, palette colours, character table,
/// maximum width and the advance derived from it, glyph table, and the
/// place and size of its pixel data.
pub fn font_parse_data(b: &[u8]) -> (r: FntLayout)
    requires
        fnt_fits(b@),
    ensures
        r.header == fnt_header_of(b@),
        r.palette_rgb@.len() == le_u16(b@, 10) + 1,
        r.palette_rgb@[0] == 0,
        forall|i: int|
            1 <= i < r.palette_rgb@.len() ==> #[trigger] r.palette_rgb@[i] == le_u32(
                b@,
                12 + 3 * (i - 1),
            ),
        r.font.char_to_glyph@ == b@.subrange(fnt_char_table_at(b@), fnt_char_table_at(b@) + 256),
        r.font.width == le_u16(b@, fnt_char_table_at(b@) + 0x100),
        r.font.width_div_5 == width_seed(signed16(le_u16(b@, fnt_char_table_at(b@) + 0x100))),
        r.font.glyphs@.len() == fnt_glyph_count(b@),
        r.font.file_glyphs == fnt_glyph_count(b@),
        forall|k: int|
            0 <= k < fnt_glyph_count(b@) ==> #[trigger] r.font.glyphs@[k] == glyph_entry_at(
                b@,
                fnt_glyphs_at(b@) + 12 * k,
            ),
        r.pixels_at == fnt_pixels_at(b@),
        r.pixel_dwords == pixel_dwords(signed32(le_u32(b@, 4)), fnt_pixels_at(b@)),
{
    let raw_size: u32 = read_u32_le(b, 4);
    let header = FntHeader {
        _unknown_00: read_u32_le(b, 0),
        data_size: raw_size as i32,
        _unknown_08: read_u16_le(b, 8),
        palette_count: read_u16_le(b, 10),
    };
    proof {
        assert(raw_size < 0x8000_0000 ==> (raw_size as i32) as int == raw_size as int) by (bit_vector);
        assert(raw_size >= 0x8000_0000 ==> (raw_size as i32) as int == raw_size as int - 0x1_0000_0000)
            by (bit_vector);
    }
    let pc: usize = header.palette_count as usize;
    let mut palette_rgb: Vec<u32> = Vec::new();
    palette_rgb.push(0);
    let mut i: usize = 0;
    while i < pc
        invariant
            i <= pc,
            pc == le_u16(b@, 10),
            fnt_fits(b@),
            palette_rgb@.len() == i + 1,
            palette_rgb@[0] == 0,
            forall|j: int|
                1 <= j < palette_rgb@.len() ==> #[trigger] palette_rgb@[j] == le_u32(
                    b@,
                    12 + 3 * (j - 1),
                ),
        decreases pc - i,
    {
        palette_rgb.push(read_u32_le(b, 12 + 3 * i));
        i = i + 1;
    }
    let c0: usize = 12 + 3 * pc;
    let mut table: Vec<u8> = Vec::new();
    let mut k: usize = 0;
    while k < 256
        invariant
            k <= 256,
            c0 == fnt_char_table_at(b@),
            c0 + 0x104 <= b@.len(),
            table@ == b@.subrange(c0 as int, c0 + k),
        decreases 256 - k,
    {
        table.push(b[c0 + k]);
        k = k + 1;
    }
    let width: u16 = read_u16_le(b, c0 + 0x100);
    let w: i32 = as_signed16(width);
    let q: i32 = if w >= 0 {
        w / 5
    } else {
        -((-w) / 5)
    };
    let v: i32 = q + (if q < 0 {
        1i32
    } else {
        0
    }) + 1;
    let seed: u16 = (if v < 0 {
        v + 0x10000
    } else {
        v
    }) as u16;
    let count: usize = read_u16_le(b, c0 + 0x102) as usize;
    let gt: usize = (c0 + 0x104 + 3) / 4 * 4;
    let mut glyphs: Vec<GlyphEntry> = Vec::new();
    let mut g: usize = 0;
    while g < count
        invariant
            g <= count,
            count == fnt_glyph_count(b@),
            gt == fnt_glyphs_at(b@),
            gt + 12 * count <= b@.len(),
            glyphs@.len() == g,
            forall|j: int|
                0 <= j < g ==> #[trigger] glyphs@[j] == glyph_entry_at(b@, gt + 12 * j),
        decreases count - g,
    {
        let off: usize = gt + 12 * g;
        glyphs.push(
            GlyphEntry {
                start_x: read_u16_le(b, off),
                start_y: read_u16_le(b, off + 2),
                width: read_u16_le(b, off + 4),
                height: read_u16_le(b, off + 6),
                pixel_offset: read_u32_le(b, off + 8),
            },
        );
        g = g + 1;
    }
    let pixels_at: usize = gt + 12 * count;
    let remaining: i32 = header.data_size - (pixels_at as i32);
    let qd: i32 = if remaining >= 0 {
        remaining / 4
    } else {
        -((-(remaining as i64)) / 4) as i32
    };
    let dwords: u32 = (if qd < 0 {
        qd as i64 + 0x1_0000_0000
    } else {
        qd as i64
    }) as u32;
    FntLayout {
        header,
        font: Font { width, width_div_5: seed, file_glyphs: count as u16, glyphs, char_to_glyph: table },
        palette_rgb,
        pixels_at,
        pixel_dwords: dwords,
    }
}

/// Where one glyph of a drawn text lands: the top-left pixel in the
/// bitmap, the glyph, and the distance between its source rows.
#[derive(Debug, Clone, Copy, PartialEq, Eq, Structural)]
pub struct GlyphPlacement {
    pub x: i32,
    pub y: i32,
    pub glyph: GlyphEntry,
    pub src_stride: i32,
}

/// The outcome of laying out a text (see `font_draw_text_impl`): the
/// returned index, the pen advance (`None` when the text was rejected
/// before drawing), the font's cell width, and the glyphs to copy.
#[derive(Debug, Clone)]
pub struct TextLayout {
    pub result: i32,
    pub pen_advance: Option<i32>,
    pub width: i32,
    pub glyphs: Vec<GlyphPlacement>,
}

/// The source row distance of the glyph with 0-based index `idx`: the cell
/// width for glyphs added after loading, the glyph's width otherwise.
pub open spec fn glyph_src_stride(font: Font, idx: int, g: GlyphEntry) -> int {
    if idx >= signed16(font.file_glyphs) {
        signed16(font.width)
    } else {
        g.width as int
    }
}

/// The placement of the glyph of code `c` at pen offset `x`, row `pen_y`.
pub open spec fn placement_at(font: Font, c: u8, x: int, pen_y: int) -> GlyphPlacement {
    let idx = font.char_to_glyph@[c as int] - 1;
    let g = font.glyphs@[idx];
    GlyphPlacement {
        x: x as i32,
        y: (pen_y + g.start_y) as i32,
        glyph: g,
        src_stride: glyph_src_stride(font, idx, g) as i32,
    }
}

/// Character `k` of a left-to-right text cannot be drawn: the pen is past
/// the bitmap, or its glyph would end less than 2 pixels before the edge.
pub open spec fn forward_blocked(font: Font, msg: Seq<u8>, pen_x: int, bw: int, k: int) -> bool {
    let a = font.text_advance(msg.take(k));
    ||| a + pen_x >= bw
    ||| match font.glyph_of(msg[k] as int) {
        Some(g) => g.width + a + pen_x + 2 > bw,
        None => false,
    }
}

/// The first character from `k` on that cannot be drawn, or `n`.
pub open spec fn forward_stop(font: Font, msg: Seq<u8>, pen_x: int, bw: int, k: int, n: int) -> int
    decreases n - k,
{
    if k >= n {
        n
    } else if forward_blocked(font, msg, pen_x, bw, k) {
        k
    } else {
        forward_stop(font, msg, pen_x, bw, k + 1, n)
    }
}

/// The placements of the drawn glyphs among the first `k` characters of a
/// left-to-right text.
pub open spec fn forward_glyphs(font: Font, msg: Seq<u8>, pen_x: int, pen_y: int, k: int) -> Seq<
    GlyphPlacement,
>
    decreases k,
{
    if k <= 0 {
        Seq::empty()
    } else {
        let prev = forward_glyphs(font, msg, pen_x, pen_y, k - 1);
        if font.glyph_of(msg[k - 1] as int) is Some {
            prev.push(
                placement_at(
                    font,
                    msg[k - 1],
                    pen_x + font.text_advance(msg.take(k - 1)),
                    pen_y,
                ),
            )
        } else {
            prev
        }
    }
}

/// The advance of the last `j` of the `n` characters.
pub open spec fn tail_advance(font: Font, msg: Seq<u8>, n: int, j: int) -> int
    decreases j,
{
    if j <= 0 {
        0
    } else {
        tail_advance(font, msg, n, j - 1) + font.char_advance(msg[n - j] as int)
    }
}

/// The `j`-th character from the end of a right-aligned text cannot be
/// drawn: its glyph would start left of the bitmap.
pub open spec fn backward_blocked(font: Font, msg: Seq<u8>, pen_x: int, n: int, j: int) -> bool {
    match font.glyph_of(msg[n - 1 - j] as int) {
        Some(g) => pen_x - tail_advance(font, msg, n, j) - g.width < 0,
        None => false,
    }
}

/// The first character, counting from the end, from `j` on that cannot be
/// drawn, or `n`.
pub open spec fn backward_stop(font: Font, msg: Seq<u8>, pen_x: int, j: int, n: int) -> int
    decreases n - j,
{
    if j >= n {
        n
    } else if backward_blocked(font, msg, pen_x, n, j) {
        j
    } else {
        backward_stop(font, msg, pen_x, j + 1, n)
    }
}

/// The placements of the drawn glyphs among the last `j` characters of a
/// right-aligned text, last character first.
pub open spec fn backward_glyphs(font: Font, msg: Seq<u8>, pen_x: int, pen_y: int, n: int, j: int) -> Seq<
    GlyphPlacement,
>
    decreases j,
{
    if j <= 0 {
        Seq::empty()
    } else {
        let prev = backward_glyphs(font, msg, pen_x, pen_y, n, j - 1);
        let c = msg[n - j];
        match font.glyph_of(c as int) {
            Some(g) => prev.push(
                placement_at(font, c, pen_x - g.width - tail_advance(font, msg, n, j - 1), pen_y),
            ),
            None => prev,
        }
    }
}

/// The layout of the C string `msg` drawn with `font` at `(pen_x, pen_y)`
/// on a `bw` x `bh` bitmap, left to right or right-aligned at `pen_x`.
/// A pen outside the bitmap, or a cell that does not fit below `pen_y`,
/// rejects the text (result 0). Left to right, the result is the index of
/// the first character that does not fit (the length when all do);
/// right-aligned, the index of the first character from the end that does
/// not fit, or -1.
pub open spec fn text_layout(
    font: Font,
    msg: Seq<u8>,
    pen_x: int,
    pen_y: int,
    bw: int,
    bh: int,
    right_aligned: bool,
) -> (int, Option<int>, Seq<GlyphPlacement>) {
    let n = cstr_len(msg);
    if pen_x < 0 || pen_y < 0 || signed16(font.width) + pen_y > bh {
        (0, None, Seq::empty())
    } else if right_aligned {
        let s = backward_stop(font, msg, pen_x, 0, n);
        (n - 1 - s, Some(tail_advance(font, msg, n, s)), backward_glyphs(font, msg, pen_x, pen_y, n, s))
    } else {
        let s = forward_stop(font, msg, pen_x, bw, 0, n);
        (s, Some(font.text_advance(msg.take(s))), forward_glyphs(font, msg, pen_x, pen_y, s))
    }
}

/// Every glyph's top row, drawn at `pen_y`, is a 32-bit row number.
pub open spec fn text_rows_fit(font: Font, pen_y: int) -> bool {
    forall|i: int| 0 <= i < font.glyphs@.len() ==> pen_y + #[trigger] font.glyphs@[i].start_y <= i32::MAX
}

/// The pen advances a layout of `msg` at `pen_x` can reach are 32-bit
/// values: every prefix advance and its pen position (left to right), or
/// every tail advance (right-aligned).
pub open spec fn text_advances_fit(font: Font, msg: Seq<u8>, pen_x: int, right_aligned: bool) -> bool {
    let n = cstr_len(msg);
    &&& n <= i32::MAX
    &&& !right_aligned ==> forall|k: int|
        0 <= k <= n ==> i32::MIN <= #[trigger] font.text_advance(msg.take(k)) <= i32::MAX && i32::MIN
            <= pen_x + font.text_advance(msg.take(k))
    &&& right_aligned ==> forall|j: int|
        0 <= j <= n ==> i32::MIN <= #[trigger] tail_advance(font, msg, n, j) <= i32::MAX
}

fn placement_of(font: &Font, c: u8, x: i32, pen_y: i32) -> (p: GlyphPlacement)
    requires
        font.wf(),
        font.char_to_glyph@[c as int] != 0,
        text_rows_fit(*font, pen_y as int),
        0 <= pen_y,
    ensures
        p == placement_at(*font, c, x as int, pen_y as int),
{
    assert(glyph_index_ok(font.glyphs@, font.char_to_glyph@[c as int]));
    let idx: usize = (font.char_to_glyph[c as usize] - 1) as usize;
    let g = font.glyphs[idx];
    assert(pen_y + g.start_y <= i32::MAX);
    let fg: i32 = as_signed16(font.file_glyphs);
    let stride: i32 = if (idx as i32) >= fg {
        as_signed16(font.width)
    } else {
        g.width as i32
    };
    GlyphPlacement { x, y: pen_y + g.start_y as i32, glyph: g, src_stride: stride }
}

/// Lays out the C string `msg` for drawing with `font` at `(pen_x,
/// pen_y)` on a `bitmap_width` x `bitmap_height` bitmap (see
/// `text_layout`); `right_aligned` draws it ending at `pen_x`.
pub fn font_draw_text_impl(
    font: &Font,
    bitmap_width: i32,
    bitmap_height: i32,
    pen_x: i32,
    pen_y: i32,
    msg: &[u8],
    right_aligned: bool,
) -> (r: TextLayout)
    requires
        font.wf(),
        text_advances_fit(*font, msg@, pen_x as int, right_aligned),
        text_rows_fit(*font, pen_y as int),
    ensures
        r.width == signed16(font.width),
        (r.result as int, match r.pen_advance {
            Some(a) => Some(a as int),
            None => None,
        }, r.glyphs@) == text_layout(
            *font,
            msg@,
            pen_x as int,
            pen_y as int,
            bitmap_width as int,
            bitmap_height as int,
            right_aligned,
        ),
{
    let font_width: i32 = as_signed16(font.width);
    if pen_x < 0 || pen_y < 0 || (font_width as i64) + (pen_y as i64) > bitmap_height as i64 {
        return TextLayout { result: 0, pen_advance: None, width: font_width, glyphs: Vec::new() };
    }
    let wd5: i64 = as_signed16(font.width_div_5) as i64;
    let n: usize = cstr_length(msg);
    let mut out: Vec<GlyphPlacement> = Vec::new();
    let px: i64 = pen_x as i64;
    let bw: i64 = bitmap_width as i64;
    if right_aligned {
        let mut j: usize = 0;
        let mut adv: i64 = 0;
        while j < n
            invariant
                font.wf(),
                n == cstr_len(msg@),
                n <= msg@.len(),
                n <= i32::MAX,
                0 <= pen_x,
                0 <= pen_y,
                text_rows_fit(*font, pen_y as int),
                px == pen_x,
                wd5 == signed16(font.width_div_5),
                font_width == signed16(font.width),
                font_width + pen_y <= bitmap_height,
                right_aligned,
                text_advances_fit(*font, msg@, pen_x as int, right_aligned),
                j <= n,
                adv == tail_advance(*font, msg@, n as int, j as int),
                -0x8000 * j <= adv <= 0x10000 * j,
                backward_stop(*font, msg@, pen_x as int, 0, n as int) == backward_stop(
                    *font,
                    msg@,
                    pen_x as int,
                    j as int,
                    n as int,
                ),
                out@ == backward_glyphs(*font, msg@, pen_x as int, pen_y as int, n as int, j as int),
            decreases n - j,
        {
            assert(i32::MIN <= tail_advance(*font, msg@, n as int, j as int) <= i32::MAX);
            let c = msg[n - 1 - j];
            let gi = font.char_to_glyph[c as usize];
            assert(glyph_index_ok(font.glyphs@, font.char_to_glyph@[c as int]));
            if gi == 0 {
                adv = adv + wd5;
            } else {
                let gw: i64 = font.glyphs[(gi - 1) as usize].width as i64;
                if px - adv - gw < 0 {
                    let ghost jj = j as int;
                    assert(backward_blocked(*font, msg@, pen_x as int, n as int, jj));
                    return TextLayout {
                        result: (n - 1 - j) as i32,
                        pen_advance: Some(adv as i32),
                        width: font_width,
                        glyphs: out,
                    };
                }
                let p = placement_of(font, c, (px - gw - adv) as i32, pen_y);
                out.push(p);
                adv = adv + gw + 1;
            }
            proof {
                assert(msg@[n - (j + 1)] == c);
            }
            j = j + 1;
        }
        assert(i32::MIN <= tail_advance(*font, msg@, n as int, j as int) <= i32::MAX);
        let res: i32 = (n as i32) - 1 - (j as i32);
        TextLayout { result: res, pen_advance: Some(adv as i32), width: font_width, glyphs: out }
    } else {
        let mut k: usize = 0;
        let mut adv: i64 = 0;
        proof {
            assert(msg@.take(0) =~= Seq::<u8>::empty());
        }
        while k < n
            invariant
                font.wf(),
                n == cstr_len(msg@),
                n <= msg@.len(),
                n <= i32::MAX,
                0 <= pen_x,
                0 <= pen_y,
                text_rows_fit(*font, pen_y as int),
                px == pen_x,
                bw == bitmap_width,
                wd5 == signed16(font.width_div_5),
                font_width == signed16(font.width),
                font_width + pen_y <= bitmap_height,
                !right_aligned,
                text_advances_fit(*font, msg@, pen_x as int, right_aligned),
                k <= n,
                adv == font.text_advance(msg@.take(k as int)),
                -0x8000 * k <= adv <= 0x10000 * k,
                forward_stop(*font, msg@, pen_x as int, bitmap_width as int, 0, n as int)
                    == forward_stop(*font, msg@, pen_x as int, bitmap_width as int, k as int, n as int),
                out@ == forward_glyphs(*font, msg@, pen_x as int, pen_y as int, k as int),
            decreases n - k,
        {
            assert(i32::MIN <= font.text_advance(msg@.take(k as int)) <= i32::MAX);
            if adv + px >= bw {
                return TextLayout {
                    result: k as i32,
                    pen_advance: Some(adv as i32),
                    width: font_width,
                    glyphs: out,
                };
            }
            let c = msg[k];
            let gi = font.char_to_glyph[c as usize];
            assert(glyph_index_ok(font.glyphs@, font.char_to_glyph@[c as int]));
            proof {
                assert(msg@.take(k + 1).drop_last() =~= msg@.take(k as int));
            }
            if gi == 0 {
                adv = adv + wd5;
            } else {
                let gw: i64 = font.glyphs[(gi - 1) as usize].width as i64;
                if gw + adv + px + 2 > bw {
                    return TextLayout {
                        result: k as i32,
                        pen_advance: Some(adv as i32),
                        width: font_width,
                        glyphs: out,
                    };
                }
                assert(i32::MIN <= pen_x + font.text_advance(msg@.take(k as int)));
                let p = placement_of(font, c, (px + adv) as i32, pen_y);
                out.push(p);
                adv = adv + gw + 1;
            }
            k = k + 1;
        }
        assert(i32::MIN <= font.text_advance(msg@.take(k as int)) <= i32::MAX);
        TextLayout { result: k as i32, pen_advance: Some(adv as i32), width: font_width, glyphs: out }
    }
}

proof fn lemma_block_cell(r: int, c: int, ds: int, height: int, width: int)
    requires
        0 <= r < height,
        0 <= c < width <= ds,
    ensures
        0 <= r * ds,
        r * ds + c <= (height - 1) * ds + width - 1,
{
    assert(0 <= r * ds) by (nonlinear_arith)
        requires
            0 <= r,
            0 <= ds,
    ;
    assert(r * ds <= (height - 1) * ds) by (nonlinear_arith)
        requires
            r <= height - 1,
            0 <= ds,
    ;
}

proof fn lemma_block_rc(j: int, off: int, ds: int, r: int, c: int)
    requires
        0 < ds,
        0 <= c < ds,
        j == off + r * ds + c,
    ensures
        (j - off) / ds == r,
        (j - off) % ds == c,
{
    vstd::arithmetic::div_mod::lemma_fundamental_div_mod_converse(j - off, ds, r, c);
}

/// The block of `dst` (rows `ds` apart from `dst_off`) after a `width` x
/// `height` block of `src` (rows `ss` apart from `src_off`) was copied
/// over it, after its first `r` rows and the first `c` bytes of row `r`.
pub open spec fn block_copied(
    old: Seq<u8>,
    dst_off: int,
    ds: int,
    src: Seq<u8>,
    src_off: int,
    ss: int,
    width: int,
    height: int,
    r: int,
    c: int,
) -> Seq<u8> {
    Seq::new(
        old.len(),
        |j: int|
            {
                let rr = (j - dst_off) / ds;
                let cc = (j - dst_off) % ds;
                if j >= dst_off && rr < height && cc < width && (rr < r || (rr == r && cc < c)) {
                    src[src_off + rr * ss + cc]
                } else {
                    old[j]
                }
            },
    )
}

/// Copies a `width` x `height` block of glyph pixels verbatim (zeros
/// included) from `src` (rows `src_stride` apart from `src_off`) to `dst`
/// (rows `dst_stride` apart from `dst_off`).
pub fn font_blit_glyph(
    dst: &mut Vec<u8>,
    dst_off: usize,
    dst_stride: usize,
    src: &[u8],
    src_off: usize,
    src_stride: usize,
    width: usize,
    height: usize,
)
    requires
        0 < dst_stride,
        width <= dst_stride,
        width <= src_stride,
        height == 0 || dst_off + (height - 1) * dst_stride + width <= old(dst)@.len(),
        height == 0 || src_off + (height - 1) * src_stride + width <= src@.len(),
    ensures
        final(dst)@ == block_copied(
            old(dst)@,
            dst_off as int,
            dst_stride as int,
            src@,
            src_off as int,
            src_stride as int,
            width as int,
            height as int,
            height as int,
            0,
        ),
{
    let ghost o = dst@;
    let ghost ds = dst_stride as int;
    let ghost ss = src_stride as int;
    let n: usize = dst.len();
    let sn: usize = src.len();
    proof {
        assert(dst@ =~= block_copied(o, dst_off as int, ds, src@, src_off as int, ss, width as int, height as int, 0, 0));
    }
    let mut r: usize = 0;
    while r < height
        invariant
            r <= height,
            0 < dst_stride,
            width <= dst_stride,
            width <= src_stride,
            ds == dst_stride,
            ss == src_stride,
            n == o.len(),
            sn == src@.len(),
            height == 0 || dst_off + (height - 1) * dst_stride + width <= o.len(),
            height == 0 || src_off + (height - 1) * src_stride + width <= src@.len(),
            dst@ == block_copied(o, dst_off as int, ds, src@, src_off as int, ss, width as int, height as int, r as int, 0),
        decreases height - r,
    {
        let mut c: usize = 0;
        while c < width
            invariant
                r < height,
                c <= width,
                0 < dst_stride,
                width <= dst_stride,
                width <= src_stride,
                ds == dst_stride,
                ss == src_stride,
                n == o.len(),
                sn == src@.len(),
                dst_off + (height - 1) * dst_stride + width <= o.len(),
                src_off + (height - 1) * src_stride + width <= src@.len(),
                dst@ == block_copied(o, dst_off as int, ds, src@, src_off as int, ss, width as int, height as int, r as int, c as int),
            decreases width - c,
        {
            proof {
                lemma_block_cell(r as int, c as int, ds, height as int, width as int);
                lemma_block_cell(r as int, c as int, ss, height as int, width as int);
            }
            let i: usize = dst_off + r * dst_stride + c;
            let v: u8 = src[src_off + r * src_stride + c];
            dst.set(i, v);
            proof {
                lemma_block_rc(i as int, dst_off as int, ds, r as int, c as int);
                assert forall|j: int| 0 <= j < o.len() implies #[trigger] dst@[j] == block_copied(
                    o,
                    dst_off as int,
                    ds,
                    src@,
                    src_off as int,
                    ss,
                    width as int,
                    height as int,
                    r as int,
                    c + 1,
                )[j] by {
                    if j != i && j >= dst_off {
                        let rr = (j - dst_off) / ds;
                        let cc = (j - dst_off) % ds;
                        if rr == r && cc == c {
                            vstd::arithmetic::div_mod::lemma_fundamental_div_mod(j - dst_off, ds);
                            assert(ds * r == r * ds) by (nonlinear_arith);
                        }
                    }
                }
                assert(dst@ =~= block_copied(o, dst_off as int, ds, src@, src_off as int, ss, width as int, height as int, r as int, c + 1));
            }
            c = c + 1;
        }
        proof {
            assert(block_copied(o, dst_off as int, ds, src@, src_off as int, ss, width as int, height as int, r as int, width as int)
                =~= block_copied(o, dst_off as int, ds, src@, src_off as int, ss, width as int, height as int, r + 1, 0));
        }
        r = r + 1;
    }
}

/// The font slot a text-drawing font id names: its low half.
pub open spec fn text_font_slot(font_id: i32) -> int {
    (font_id as int) % 0x10000
}

/// Whether a text-drawing font id asks for right-aligned text: bit 1 of
/// its high half.
pub open spec fn text_right_aligned(font_id: i32) -> bool {
    ((font_id >> 16u32) >> 1u32) & 1 != 0
}

/// Lay out `msg` in the font named by `font_id` (slot `1..=31` in the low
/// half, flags in the high half) on a bitmap of the given size: `None` for
/// an invalid slot or an empty one.
pub fn draw_text_on_bitmap(
    fonts: &[Option<Font>],
    font_id: i32,
    bitmap_width: i32,
    bitmap_height: i32,
    pen_x: i32,
    pen_y: i32,
    msg: &[u8],
) -> (r: Option<TextLayout>)
    requires
        fonts.len() >= 32,
        forall|i: int| 0 <= i < fonts.len() ==> (#[trigger] fonts[i] matches Some(f) ==> f.wf()),
        1 <= text_font_slot(font_id) <= 31 ==> (fonts[text_font_slot(font_id)] matches Some(f) ==> (
        text_advances_fit(f, msg@, pen_x as int, text_right_aligned(font_id)) && text_rows_fit(
            f,
            pen_y as int,
        ))),
    ensures
        !(1 <= text_font_slot(font_id) <= 31) ==> r is None,
        1 <= text_font_slot(font_id) <= 31 ==> match fonts[text_font_slot(font_id)] {
            None => r is None,
            Some(f) => r matches Some(t) && t.width == signed16(f.width) && (t.result as int, match t.pen_advance {
                Some(a) => Some(a as int),
                None => None,
            }, t.glyphs@) == text_layout(
                f,
                msg@,
                pen_x as int,
                pen_y as int,
                bitmap_width as int,
                bitmap_height as int,
                text_right_aligned(font_id),
            ),
        },
{
    let low = font_id & 0xFFFF;
    assert(low == text_font_slot(font_id)) by (bit_vector)
        requires
            low == font_id & 0xFFFF,
    ;
    if low < 1 || low > 31 {
        return None;
    }
    match &fonts[low as usize] {
        None => None,
        Some(f) => {
            let right = ((font_id >> 16u32) >> 1u32) & 1 != 0;
            Some(font_draw_text_impl(f, bitmap_width, bitmap_height, pen_x, pen_y, msg, right))
        },
    }
}

/// The font in slot `font_id` of a font table (valid slots are `1..=31`).
pub open spec fn font_at(fonts: Seq<Option<Font>>, font_id: int) -> Option<Font> {
    if 1 <= font_id <= 31 {
        fonts[font_id]
    } else {
        None
    }
}

/// Whether every font of a table is well formed.
pub open spec fn fonts_wf(fonts: Seq<Option<Font>>) -> bool {
    forall|i: int| 0 <= i < fonts.len() ==> (#[trigger] fonts[i] matches Some(f) ==> f.wf())
}

fn font_in_slot(fonts: &[Option<Font>], font_id: i32) -> (r: Option<&Font>)
    requires
        fonts.len() >= 32,
    ensures
        match font_at(fonts@, font_id as int) {
            None => r is None,
            Some(f) => r == Some(&f),
        },
{
    if font_id < 1 || font_id > 31 {
        return None;
    }
    match &fonts[font_id as usize] {
        None => None,
        Some(f) => Some(f),
    }
}

/// The info query of font `font_id`: its largest advance and its height
/// (see `font_get_info_impl`); `None` for an invalid or empty slot.
pub fn get_font_info(fonts: &[Option<Font>], font_id: i32) -> (r: Option<(i32, i32)>)
    requires
        fonts.len() >= 32,
        fonts_wf(fonts@),
    ensures
        match font_at(fonts@, font_id as int) {
            None => r is None,
            Some(f) => r == Some((f.max_advance(f.glyphs@.len() as int) as i32, signed16(f.width) as i32)),
        },
{
    match font_in_slot(fonts, font_id) {
        None => None,
        Some(f) => {
            assert(f.wf());
            Some(font_get_info_impl(f))
        },
    }
}

/// The metric query of font `font_id` for the low byte of `char_code` (see
/// `font_get_metric_impl`); `None` for an invalid or empty slot.
pub fn get_font_metric(fonts: &[Option<Font>], font_id: i32, char_code: u32) -> (r: Option<(i32, Option<i32>)>)
    requires
        fonts.len() >= 32,
        fonts_wf(fonts@),
    ensures
        match font_at(fonts@, font_id as int) {
            None => r is None,
            Some(f) => r matches Some(m) && {
                let c = char_code as u8;
                &&& m.0 == signed16(f.width)
                &&& (c == 0x20 || c == 0xA0) ==> m.1 == Some(signed16(f.width_div_5) as i32)
                &&& (c != 0x20 && c != 0xA0) ==> m.1 == (match f.glyph_of(c as int) {
                    Some(g) => Some(Font::advance_of(g) as i32),
                    None => None,
                })
            },
        },
{
    match font_in_slot(fonts, font_id) {
        None => None,
        Some(f) => {
            assert(f.wf());
            Some(font_get_metric_impl(f, char_code as u8))
        },
    }
}

/// The text-advance query of font `font_id` for the C string `text` (see
/// `font_set_param_impl`); `None` for an invalid or empty slot.
pub fn set_font_param(fonts: &[Option<Font>], font_id: i32, text: &[u8]) -> (r: Option<(i32, i32)>)
    requires
        fonts.len() >= 32,
        fonts_wf(fonts@),
        text@.len() < 0x8000,
    ensures
        match font_at(fonts@, font_id as int) {
            None => r is None,
            Some(f) => r == Some((f.text_advance(text@.take(cstr_len(text@))) as i32, signed16(f.width) as i32)),
        },
{
    match font_in_slot(fonts, font_id) {
        None => None,
        Some(f) => {
            assert(f.wf());
            Some(font_set_param_impl(f, text))
        },
    }
}

} // verus!
