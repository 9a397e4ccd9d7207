use openwa_core::font::{
    draw_text_on_bitmap, get_font_info, get_font_metric, set_font_param, font_blit_glyph, font_draw_text_impl, GlyphPlacement,
    cstr_length, font_parse_data, font_tables_ok, FntHeader, font_extend, font_get_info_impl, font_get_metric_impl, font_set_palette_impl,
    font_set_param_impl, glyph_advance_metric, glyph_entry_of_cell, mod_255_signed,
    palette_step_colors, remap_through_lut, Font, GlyphEntry,
};

fn glyph(start_x: u16, start_y: u16, width: u16, height: u16, pixel_offset: u32) -> GlyphEntry {
    GlyphEntry { start_x, start_y, width, height, pixel_offset }
}

fn font(width: u16, width_div_5: u16, glyphs: Vec<GlyphEntry>, map: &[(u8, u8)]) -> Font {
    let mut char_to_glyph = vec![0u8; 256];
    for &(c, i) in map {
        char_to_glyph[c as usize] = i;
    }
    let file_glyphs = glyphs.len() as u16;
    Font { width, width_div_5, file_glyphs, glyphs, char_to_glyph }
}

#[test]
fn metrics_of_mapped_and_unmapped_codes() {
    let f = font(8, 2, vec![glyph(0, 0, 5, 7, 0), glyph(0, 0, 3, 7, 40)], &[(b'A', 1), (b'B', 2)]);
    assert_eq!(glyph_advance_metric(&f, 1), 6);
    assert_eq!(font_get_info_impl(&f), (6, 8));
    assert_eq!(font_get_metric_impl(&f, b'B'), (8, Some(4)));
    assert_eq!(font_get_metric_impl(&f, b' '), (8, Some(2)));
    assert_eq!(font_get_metric_impl(&f, 0xA0), (8, Some(2)));
    assert_eq!(font_get_metric_impl(&f, b'Q'), (8, None));
    // "AB" then an unmapped 'Z' before the terminator; the tail is ignored.
    assert_eq!(font_set_param_impl(&f, b"ABZ\0AAAA"), (6 + 4 + 2, 8));
    assert_eq!(cstr_length(b"ABZ\0AAAA"), 3);
}

#[test]
fn signed_width_fields() {
    let f = font(0xFFFF, 0xFFFE, vec![], &[]);
    assert_eq!(font_get_info_impl(&f), (-2, -1));
}

#[test]
fn remainder_by_255_keeps_sign() {
    assert_eq!(mod_255_signed(254), 254);
    assert_eq!(mod_255_signed(510), 0);
    assert_eq!(mod_255_signed(-300), -45);
}

#[test]
fn stepped_palette_colours() {
    let c = palette_step_colors(0x0003_0201);
    assert_eq!(c.len(), 256);
    assert_eq!(c[0], 0);
    assert_eq!(c[1], 0x0003_0201);
    assert_eq!(c[128], 0x0081_0180);
    assert_eq!(c[255], 0);
}

#[test]
fn tight_box_of_a_cell() {
    let cell = [0u8, 0, 0, 0, 5, 0, 0, 0, 6];
    assert_eq!(glyph_entry_of_cell(&cell.to_vec(), 0, 3, 100), glyph(1, 1, 2, 2, 104));
    let empty = vec![0u8; 9];
    assert_eq!(glyph_entry_of_cell(&empty, 0, 3, 100), glyph(0, 0, 3, 3, 100));
    // The offset wraps modulo 2^32.
    assert_eq!(glyph_entry_of_cell(&cell.to_vec(), 0, 3, 0xFFFF_FFFE), glyph(1, 1, 2, 2, 2));
}

#[test]
fn extend_adds_boxed_glyphs_and_codes() {
    let mut f = font(3, 1, vec![glyph(0, 0, 3, 3, 0)], &[(b'A', 1)]);
    let mut px = vec![0u8, 0, 0, 0, 5, 0, 0, 0, 6, 0, 0, 7, 0, 0, 0, 0, 0, 0];
    let lut: Vec<u8> = (0..=255u8).map(|b| b.wrapping_add(1)).collect();
    font_extend(&mut f, b"BC\0", &mut px, &lut, 1000);
    assert_eq!(f.glyphs.len(), 3);
    assert_eq!(f.glyphs[1], glyph(1, 1, 2, 2, 1004));
    assert_eq!(f.glyphs[2], glyph(2, 0, 1, 1, 1011));
    assert_eq!(f.char_to_glyph[b'B' as usize], 2);
    assert_eq!(f.char_to_glyph[b'C' as usize], 3);
    assert_eq!(f.char_to_glyph[b'A' as usize], 1);
    assert_eq!(px[0], 1);
    assert_eq!(px[4], 6);
    assert_eq!(px[11], 8);
}

#[test]
fn extend_repeated_code_takes_the_last_glyph() {
    let mut f = font(1, 1, vec![], &[]);
    let mut px = vec![1u8, 1];
    let lut: Vec<u8> = (0..=255u8).collect();
    font_extend(&mut f, b"xx", &mut px, &lut, 0);
    assert_eq!(f.glyphs.len(), 2);
    assert_eq!(f.char_to_glyph[b'x' as usize], 2);
}

#[test]
fn digital_font_gains_dot_and_semicolon() {
    let glyphs = vec![glyph(0, 0, 4, 2, 0), glyph(0, 0, 4, 2, 8), glyph(1, 0, 2, 2, 16)];
    let mut f = font(4, 1, glyphs.clone(), &[(b'-', 1), (b'8', 2), (b':', 3)]);
    let mut px = vec![0u8; 20];
    px[5] = 0x11;
    px[13] = 0x22;
    px[16..20].copy_from_slice(&[0x22, 0x00, 0x33, 0x22]);
    let (r, area) = font_set_palette_impl(&mut f, &px, 0x1FF, 500);
    assert_eq!(r, 1);
    assert_eq!(
        area,
        vec![
            0xFF, 0xFF, 0xFF, 0xFF, 0x33, 0x22, 0, 0, 0x11, 0, 0, 0, 0x33, 0x11, 0, 0
        ]
    );
    assert_eq!(f.glyphs.len(), 5);
    assert_eq!(f.glyphs[3], glyph(1, 0, 2, 2, 500));
    assert_eq!(f.glyphs[4], glyph(1, 0, 2, 2, 508));
    assert_eq!(f.char_to_glyph[b'.' as usize], 4);
    assert_eq!(f.char_to_glyph[b';' as usize], 5);
}

#[test]
fn digital_font_without_colon_is_left_alone() {
    let mut f = font(4, 1, vec![glyph(0, 0, 4, 2, 0)], &[(b'-', 1), (b'8', 1)]);
    let px = vec![0u8; 8];
    let (r, area) = font_set_palette_impl(&mut f, &px, 7, 0);
    assert_eq!(r, 0);
    assert!(area.is_empty());
    assert_eq!(f.glyphs.len(), 1);
    assert_eq!(f.char_to_glyph[b'.' as usize], 0);
}

#[test]
fn lut_remap() {
    let mut px = vec![0u8, 1, 2];
    let mut lut = vec![0u8; 256];
    lut[0] = 9;
    lut[1] = 8;
    lut[2] = 7;
    remap_through_lut(&mut px, &lut);
    assert_eq!(px, vec![9, 8, 7]);
}

fn fnt_record(max_width: i16, data_size: i32) -> Vec<u8> {
    let mut b = Vec::new();
    b.extend_from_slice(&7u32.to_le_bytes());
    b.extend_from_slice(&data_size.to_le_bytes());
    b.extend_from_slice(&0u16.to_le_bytes());
    b.extend_from_slice(&1u16.to_le_bytes());
    b.extend_from_slice(&[0x10, 0x20, 0x30]);
    let mut table = [0u8; 256];
    table[b'A' as usize] = 1;
    b.extend_from_slice(&table);
    b.extend_from_slice(&max_width.to_le_bytes());
    b.extend_from_slice(&1u16.to_le_bytes());
    b.push(0xEE); // padding to a multiple of four
    for v in [1u16, 2, 3, 4] {
        b.extend_from_slice(&v.to_le_bytes());
    }
    b.extend_from_slice(&0u32.to_le_bytes());
    b.extend_from_slice(&[9u8; 10]);
    b
}

#[test]
fn parse_fnt_record() {
    let b = fnt_record(8, 298);
    let l = font_parse_data(&b);
    assert_eq!(
        l.header,
        FntHeader { _unknown_00: 7, data_size: 298, _unknown_08: 0, palette_count: 1 }
    );
    assert_eq!(l.palette_rgb, vec![0, 0x0030_2010]);
    assert_eq!(l.font.width, 8);
    assert_eq!(l.font.width_div_5, 2);
    assert_eq!(l.font.char_to_glyph[b'A' as usize], 1);
    assert_eq!(l.font.glyphs, vec![glyph(1, 2, 3, 4, 0)]);
    assert_eq!(l.pixels_at, 288);
    assert_eq!(l.pixel_dwords, 2);
    assert!(font_tables_ok(&l.font));
}

#[test]
fn parse_fnt_signed_fields() {
    let l = font_parse_data(&fnt_record(-7, 280));
    assert_eq!(l.font.width, 0xFFF9);
    assert_eq!(l.font.width_div_5, 1);
    // Eight bytes short of the pixel data: -2 words as 32 bits.
    assert_eq!(l.pixel_dwords, 0xFFFF_FFFE);
    let mut bad = fnt_record(8, 298);
    bad[15 + b'B' as usize] = 2;
    assert!(!font_tables_ok(&font_parse_data(&bad).font));
}

fn text_font() -> Font {
    font(8, 2, vec![glyph(0, 1, 3, 2, 0), glyph(0, 0, 2, 2, 6)], &[(b'A', 1), (b'B', 2)])
}

fn placed(x: i32, y: i32, g: GlyphEntry, src_stride: i32) -> GlyphPlacement {
    GlyphPlacement { x, y, glyph: g, src_stride }
}

#[test]
fn text_left_to_right() {
    let f = text_font();
    let (a, b) = (f.glyphs[0], f.glyphs[1]);
    let l = font_draw_text_impl(&f, 20, 10, 1, 1, b"AB A\0", false);
    assert_eq!(l.result, 4);
    assert_eq!(l.pen_advance, Some(13));
    assert_eq!(l.width, 8);
    assert_eq!(l.glyphs, vec![placed(1, 2, a, 3), placed(5, 1, b, 2), placed(10, 2, a, 3)]);
    // The last glyph would end too close to a 12-pixel edge.
    let t = font_draw_text_impl(&f, 12, 10, 1, 1, b"AB A\0", false);
    assert_eq!((t.result, t.pen_advance, t.glyphs.len()), (3, Some(9), 2));
}

#[test]
fn text_right_aligned() {
    let f = text_font();
    let (a, b) = (f.glyphs[0], f.glyphs[1]);
    let l = font_draw_text_impl(&f, 20, 10, 10, 1, b"AB", true);
    assert_eq!((l.result, l.pen_advance), (-1, Some(7)));
    assert_eq!(l.glyphs, vec![placed(8, 1, b, 2), placed(4, 2, a, 3)]);
    let t = font_draw_text_impl(&f, 20, 10, 4, 1, b"AB", true);
    assert_eq!((t.result, t.pen_advance, t.glyphs.len()), (0, Some(3), 1));
    let e = font_draw_text_impl(&f, 20, 10, 4, 1, b"", true);
    assert_eq!((e.result, e.pen_advance, e.glyphs.len()), (-1, Some(0), 0));
}

#[test]
fn text_rejected_below_the_bitmap() {
    let f = text_font();
    let l = font_draw_text_impl(&f, 20, 10, 1, 3, b"AB", false);
    assert_eq!((l.result, l.pen_advance, l.glyphs.len(), l.width), (0, None, 0, 8));
    let n = font_draw_text_impl(&f, 20, 10, -1, 0, b"AB", false);
    assert_eq!((n.result, n.pen_advance), (0, None));
}

#[test]
fn added_glyphs_use_cell_rows() {
    let mut f = text_font();
    f.file_glyphs = 1;
    let l = font_draw_text_impl(&f, 20, 10, 0, 0, b"B", false);
    assert_eq!(l.glyphs[0].src_stride, 8);
}

#[test]
fn glyph_block_copy() {
    let mut dst = vec![0u8; 12];
    font_blit_glyph(&mut dst, 5, 4, &[1, 2, 9, 3, 4, 9], 0, 3, 2, 2);
    assert_eq!(dst, vec![0, 0, 0, 0, 0, 1, 2, 0, 0, 3, 4, 0]);
}

#[test]
fn text_on_bitmap_picks_the_font_slot_and_alignment() {
    let mut fonts: Vec<Option<Font>> = vec![None; 32];
    fonts[3] = Some(text_font());
    let f = text_font();
    let (a, b) = (f.glyphs[0], f.glyphs[1]);
    let l = draw_text_on_bitmap(&fonts, 3, 20, 10, 1, 1, b"AB A\0").unwrap();
    assert_eq!((l.result, l.pen_advance), (4, Some(13)));
    let r = draw_text_on_bitmap(&fonts, 3 | (2 << 16), 20, 10, 10, 1, b"AB").unwrap();
    assert_eq!((r.result, r.pen_advance), (-1, Some(7)));
    assert_eq!(r.glyphs, vec![placed(8, 1, b, 2), placed(4, 2, a, 3)]);
    assert!(draw_text_on_bitmap(&fonts, 4, 20, 10, 1, 1, b"AB").is_none());
    assert!(draw_text_on_bitmap(&fonts, 0, 20, 10, 1, 1, b"AB").is_none());
    assert!(draw_text_on_bitmap(&fonts, 32, 20, 10, 1, 1, b"AB").is_none());
}

#[test]
fn font_queries_go_through_the_slot_table() {
    let mut fonts: Vec<Option<Font>> = vec![None; 32];
    fonts[31] = Some(text_font());
    let f = text_font();
    assert_eq!(get_font_info(&fonts, 31), Some(font_get_info_impl(&f)));
    assert_eq!(get_font_metric(&fonts, 31, 0x141), Some(font_get_metric_impl(&f, b'A')));
    assert_eq!(set_font_param(&fonts, 31, b"AB\0"), Some(font_set_param_impl(&f, b"AB\0")));
    assert_eq!(get_font_info(&fonts, 30), None);
    assert_eq!(get_font_metric(&fonts, 32, 0x41), None);
    assert_eq!(set_font_param(&fonts, 0, b"A"), None);
}

#[test]
fn text_far_right_on_a_wide_bitmap() {
    let f = text_font();
    let (a, b) = (f.glyphs[0], f.glyphs[1]);
    let l = font_draw_text_impl(&f, i32::MAX, 10, 0x7000_0000, 1, b"AB", false);
    assert_eq!((l.result, l.pen_advance), (2, Some(7)));
    assert_eq!(l.glyphs, vec![placed(0x7000_0000, 2, a, 3), placed(0x7000_0004, 1, b, 2)]);
}
