use openwa_core::pixel_grid::PixelGrid;
use openwa_core::sprite_blit::{
    blit_1bit_aligned, blit_generic_perpixel, blit_sprite_rect, blit_stippled, blit_tiled,
    pixel_grid_from_indexed, BlitBlend, BlitOrientation, BlitSource,
};
use openwa_core::sprite_op::{
    SpriteFlags, SpriteOp, SPRITE_FLAG_ADDITIVE, SPRITE_FLAG_MIRROR_X, SPRITE_FLAG_TILED,
};
use openwa_core::tiled::{
    blit_64byte_row_pattern, blit_color_table_forward, draw_tiled_plan, strip_cache_draw,
    strip_heights, tile_column_start, StripCache, TileBlit,
};

fn grid(w: u32, h: u32, fill: u8) -> PixelGrid {
    PixelGrid {
        data: vec![fill; (w * h) as usize],
        width: w,
        height: h,
        row_stride: w,
        clip_left: 0,
        clip_top: 0,
        clip_right: w,
        clip_bottom: h,
    }
}

#[test]
fn orientation_and_blend_from_flags() {
    assert_eq!(BlitOrientation::from_flags(0), BlitOrientation::Normal);
    assert_eq!(BlitOrientation::from_flags(1 << 16), BlitOrientation::MirrorX);
    assert_eq!(BlitOrientation::from_flags(8 << 16), BlitOrientation::MirrorXY);
    assert_eq!(BlitOrientation::from_flags(15 << 16), BlitOrientation::Rotate90);
    assert_eq!(BlitOrientation::from_flags(16 << 16), BlitOrientation::Normal);
    assert_eq!(BlitBlend::from_flags(1), BlitBlend::ColorTable);
    assert_eq!(BlitBlend::from_flags(2), BlitBlend::Additive);
    assert_eq!(BlitBlend::from_flags(3), BlitBlend::Subtractive);
    assert_eq!(BlitBlend::from_flags(7), BlitBlend::Copy);
}

#[test]
fn rect_copy_draws_the_source() {
    let src_px = [1u8, 2, 3, 4, 5, 6, 7, 8];
    let src = BlitSource { data: &src_px, width: 4, height: 2, row_stride: 4 };
    let mut dst = grid(4, 2, 99);
    let drawn = blit_sprite_rect(
        &mut dst, &src, 0, 0, 4, 2, 0, 0, None, BlitOrientation::Normal, BlitBlend::Copy,
    );
    assert!(drawn);
    assert_eq!(dst.data, src_px.to_vec());
}

#[test]
fn rect_color_table_mirrors_and_skips_zero() {
    let src_px = [1u8, 0, 3, 4, 5, 6, 7, 8];
    let src = BlitSource { data: &src_px, width: 4, height: 2, row_stride: 4 };
    let mut table = [0u8; 256];
    for (i, t) in table.iter_mut().enumerate() {
        *t = (i as u8).wrapping_add(10);
    }
    let mut dst = grid(4, 2, 99);
    blit_sprite_rect(
        &mut dst,
        &src,
        0,
        0,
        4,
        2,
        0,
        0,
        Some(&table),
        BlitOrientation::MirrorX,
        BlitBlend::ColorTable,
    );
    assert_eq!(dst.data, vec![14, 13, 99, 11, 18, 17, 16, 15]);
}

#[test]
fn rect_outside_clip_draws_nothing() {
    let src_px = [1u8; 4];
    let src = BlitSource { data: &src_px, width: 2, height: 2, row_stride: 2 };
    let mut dst = grid(4, 4, 0);
    dst.clip_right = 2;
    let drawn = blit_sprite_rect(
        &mut dst, &src, 2, 0, 2, 2, 0, 0, None, BlitOrientation::Normal, BlitBlend::Copy,
    );
    assert!(!drawn);
    assert!(dst.data.iter().all(|&b| b == 0));
}

#[test]
fn rect_additive_only_over_drawn_pixels() {
    let src_px = [7u8, 7, 7, 7];
    let src = BlitSource { data: &src_px, width: 4, height: 1, row_stride: 4 };
    let mut dst = grid(4, 1, 0);
    dst.data = vec![0, 1, 0, 2];
    blit_sprite_rect(
        &mut dst, &src, 0, 0, 4, 1, 0, 0, None, BlitOrientation::Normal, BlitBlend::Additive,
    );
    assert_eq!(dst.data, vec![0, 7, 0, 7]);
    dst.data = vec![0, 1, 0, 2];
    blit_sprite_rect(
        &mut dst, &src, 0, 0, 4, 1, 0, 0, None, BlitOrientation::Normal, BlitBlend::Subtractive,
    );
    assert_eq!(dst.data, vec![7, 1, 7, 2]);
}

#[test]
fn stippled_draws_a_checkerboard() {
    let src_px = [5u8; 4];
    let src = BlitSource { data: &src_px, width: 2, height: 2, row_stride: 2 };
    let mut dst = grid(2, 2, 0);
    blit_stippled(&mut dst, &src, 0, 0, 2, 2, 0, 0, 0, 0);
    // Pixel (x, y) is drawn when x ^ y ^ mode ^ parity is odd.
    assert_eq!(dst.data, vec![0, 5, 5, 0]);
    let mut dst = grid(2, 2, 0);
    blit_stippled(&mut dst, &src, 0, 0, 2, 2, 0, 0, 1, 0);
    assert_eq!(dst.data, vec![5, 0, 0, 5]);
}

#[test]
fn tiled_repeats_across_the_clip() {
    let src_px = [1u8, 2];
    let src = BlitSource { data: &src_px, width: 2, height: 1, row_stride: 2 };
    let mut dst = grid(5, 1, 0);
    blit_tiled(&mut dst, &src, 1, 0, 2, 1, 0, 5, None, 0);
    // Tiles at x = -1, 1, 3: the first is clipped to its second pixel.
    assert_eq!(dst.data, vec![2, 1, 2, 1, 2]);
}

#[test]
fn tiled_equals_rect_blits_from_the_aligned_start() {
    let src_px = [3u8, 0, 5, 6, 0, 8];
    let src = BlitSource { data: &src_px, width: 3, height: 2, row_stride: 3 };
    let mut table = [0u8; 256];
    for (i, t) in table.iter_mut().enumerate() {
        *t = (i as u8).wrapping_mul(2);
    }
    let flags = (1u32 << 16) | 1;
    let mut tiled = grid(8, 2, 9);
    tiled.clip_left = 2;
    tiled.clip_right = 7;
    let mut by_rects = grid(8, 2, 9);
    by_rects.clip_left = 2;
    by_rects.clip_right = 7;
    blit_tiled(&mut tiled, &src, 10, 0, 3, 2, 2, 7, Some(&table), flags);
    // The tiles are aligned with 10 (10 = 3 * 3 + 1): the first at or left of
    // the clip is at 1, then 4; 7 is right of the clip.
    for x in [1, 4] {
        blit_sprite_rect(
            &mut by_rects,
            &src,
            x,
            0,
            3,
            2,
            0,
            0,
            Some(&table),
            BlitOrientation::from_flags(flags),
            BlitBlend::from_flags(flags),
        );
    }
    assert_eq!(tiled.data, by_rects.data);
    assert_eq!(tiled.data, vec![9, 9, 9, 6, 10, 9, 6, 9, 9, 9, 9, 12, 16, 9, 12, 9]);
}

#[test]
fn indexed_pixels_get_padded_rows() {
    let g = pixel_grid_from_indexed(3, 2, &[1, 2, 3, 4, 5, 6]);
    assert_eq!(g.row_stride, 4);
    assert_eq!(g.data, vec![1, 2, 3, 0, 4, 5, 6, 0]);
    assert_eq!((g.clip_right, g.clip_bottom), (3, 2));
}

#[test]
fn perpixel_copy_and_collision() {
    // 8bpp destination and source, 2x1 clip.
    let mut dst = [0u8, 9];
    let src = [3u8, 0];
    let r = blit_generic_perpixel(&mut dst, 2, 8, &src, 2, 8, 0, 0, 2, 1, 0, 0, None, 0);
    assert_eq!(r, 1);
    assert_eq!(dst, [3, 0]);
    // Mode 5 reports whether a non-zero source pixel meets a non-zero destination pixel.
    let mut dst = [0u8, 9];
    let hit = blit_generic_perpixel(&mut dst, 2, 8, &[0, 4], 2, 8, 0, 0, 2, 1, 0, 0, None, 5);
    assert_eq!(hit, 1);
    let mut dst = [0u8, 9];
    let miss = blit_generic_perpixel(&mut dst, 2, 8, &[4, 0], 2, 8, 0, 0, 2, 1, 0, 0, None, 5);
    assert_eq!(miss, 0);
}

#[test]
fn perpixel_pixels_past_the_row_end_use_the_next_row_bytes() {
    // Stride 4, clip columns 4..6 of row 0: the bytes 4 and 5, which also
    // hold pixels 0 and 1 of row 1.
    let mut dst = [1u8, 1, 1, 1, 0, 7, 1, 1];
    let src = [5u8, 6, 0, 0, 0, 0, 0, 0];
    let r = blit_generic_perpixel(&mut dst, 4, 8, &src, 4, 8, 4, 0, 6, 1, 0, 0, None, 0);
    assert_eq!(r, 1);
    assert_eq!(dst, [1, 1, 1, 1, 5, 6, 1, 1]);
    let dst = [1u8, 1, 1, 1, 0, 7, 1, 1];
    let mut probe = dst;
    let hit = blit_generic_perpixel(&mut probe, 4, 8, &src, 4, 8, 4, 0, 6, 1, 0, 0, None, 5);
    assert_eq!(hit, 1);
    assert_eq!(probe, dst);
    // Rows 0 and 1 over one column past the row end: the pixel (4, 0) and
    // the pixel (0, 1) share byte 4, so the second write wins.
    let mut dst = [0u8; 9];
    let src = [1u8, 2, 3, 4, 5, 6, 7, 8, 9, 10];
    blit_generic_perpixel(&mut dst, 4, 8, &src, 5, 8, 0, 0, 5, 2, 0, 0, None, 0);
    assert_eq!(dst, [1, 2, 3, 4, 6, 7, 8, 9, 10]);
}

#[test]
fn one_bit_aligned_copies_whole_bytes() {
    let mut dst = [0u8; 2];
    let src = [0xA5u8, 0x3C];
    blit_1bit_aligned(&mut dst, 2, &src, 2, 0, 0, 16, 1, 0, 0, 0);
    assert_eq!(dst, [0xA5, 0x3C]);
}

#[test]
fn sprite_op_packs_index_and_flags() {
    let flags = SpriteFlags::from_bits_truncate(SPRITE_FLAG_MIRROR_X | SPRITE_FLAG_ADDITIVE | 0xFF);
    assert_eq!(flags.bits(), SPRITE_FLAG_MIRROR_X | SPRITE_FLAG_ADDITIVE);
    let op = SpriteOp::new(0x1234, flags);
    assert_eq!(op.0, 0x1234 | SPRITE_FLAG_MIRROR_X | SPRITE_FLAG_ADDITIVE);
    assert_eq!(op.index(), 0x1234);
    assert!(op.flags().contains(SpriteFlags::from_bits_truncate(SPRITE_FLAG_MIRROR_X)));
    assert!(!op.flags().contains(SpriteFlags::from_bits_truncate(SPRITE_FLAG_TILED)));
    assert_eq!(SpriteOp::from_index(7).0, 7);
    assert!(SpriteOp::none().flags().is_empty());
    assert_eq!(
        SpriteFlags::empty().union(SpriteFlags::from_bits_truncate(SPRITE_FLAG_TILED)).bits(),
        SPRITE_FLAG_TILED
    );
}

#[test]
fn strips_of_a_tall_bitmap() {
    assert_eq!(strip_heights(0), Vec::<i32>::new());
    assert_eq!(strip_heights(0x400), vec![0x400]);
    assert_eq!(strip_heights(0x901), vec![0x400, 0x400, 0x101]);
}

#[test]
fn column_start_is_left_of_dest() {
    assert_eq!(tile_column_start(0), 0);
    assert_eq!(tile_column_start(64), 0);
    assert_eq!(tile_column_start(70), -58);
    assert_eq!(tile_column_start(-1), -1);
    assert_eq!(tile_column_start(-64), 0);
    assert_eq!(tile_column_start(-70), -6);
}

#[test]
fn tiled_plan_covers_the_display() {
    // A 0x500-row bitmap in two strips, camera at 0, drawn at (70, 0) on a
    // 100 x 0x500 display: columns at -58, 6, 70 for each strip.
    let plan = draw_tiled_plan(70, 0, 0, 100, 0x500, 0x500, 2);
    assert_eq!(plan.len(), 6);
    assert_eq!(plan[0], TileBlit { x: -58, y: 0, width: 64, height: 0x400, tile: 0 });
    assert_eq!(plan[2], TileBlit { x: 70, y: 0, width: 64, height: 0x400, tile: 0 });
    assert_eq!(plan[3], TileBlit { x: -58, y: 0x400, width: 64, height: 0x100, tile: 1 });
    // A display above the bitmap shows no strip.
    assert!(draw_tiled_plan(0, 0x1000, 0, 100, 0x100, 0x500, 2).is_empty());
}

#[test]
fn pattern_rows_repeat_eight_bytes() {
    let mut dst = vec![0u8; 2 * 70];
    let src: Vec<u8> = (1..=16).collect();
    blit_64byte_row_pattern(&mut dst, 70, &src, 0, 2);
    assert_eq!(&dst[0..8], &[1, 2, 3, 4, 5, 6, 7, 8]);
    assert_eq!(&dst[56..64], &[1, 2, 3, 4, 5, 6, 7, 8]);
    assert_eq!(&dst[64..70], &[0; 6]);
    assert_eq!(&dst[70..78], &[9, 10, 11, 12, 13, 14, 15, 16]);
}

#[test]
fn color_table_forward_skips_zero() {
    let mut dst = vec![7u8; 6];
    let src = [1u8, 0, 2, 0, 3, 4];
    blit_color_table_forward(&mut dst, 3, &src, 0, 3, 2, 2);
    assert_eq!(dst, vec![1, 7, 7, 7, 3, 7]);
}

#[test]
fn strip_cache_is_created_and_filled_once() {
    let p = openwa_core::tiled::tiled_cache_plan(0, true, 0x900, 8);
    assert_eq!(p.allocate, Some(vec![0x400, 0x400, 0x100]));
    assert!(p.populate);
    assert_eq!(p.fill, openwa_core::tiled::StripFill::RowPattern);
    let q = openwa_core::tiled::tiled_cache_plan(3, false, 0x900, 0x40);
    assert_eq!(q.allocate, None);
    assert!(q.populate);
    assert_eq!(q.fill, openwa_core::tiled::StripFill::ColorTable);
    let r = openwa_core::tiled::tiled_cache_plan(3, true, 0x900, 16);
    assert!(!r.populate);
    assert_eq!(r.fill, openwa_core::tiled::StripFill::Nothing);
}

#[test]
fn strip_cache_is_built_and_filled_once() {
    let mut cache = StripCache { strips: 0, populated: false };
    let first = strip_cache_draw(&mut cache, 0x900, 8);
    assert_eq!(first.allocate, Some(vec![0x400, 0x400, 0x100]));
    assert!(first.populate);
    assert_eq!(cache, StripCache { strips: 3, populated: true });
    let second = strip_cache_draw(&mut cache, 0x900, 8);
    assert_eq!(second.allocate, None);
    assert!(!second.populate);
    assert_eq!(cache, StripCache { strips: 3, populated: true });
}
