use openwa_core::draw::{
    acquire_render_lock, blit_bitmap_clipped, LockedLayer, blit_bitmap_tiled, draw_crosshair, draw_outlined_pixel, draw_pixel_strip,
    draw_polyline, draw_tiled_terrain, fill_rect, get_bitmap_sprite_info, set_clip_rect,
    BitmapBlit, ClipRect, FillArea, LayerClip, TerrainBlit, TerrainGrid,
};
use openwa_core::fixed::Fixed;
use openwa_core::layer_sprite::{LayerSprite, LayerSpriteFrame};
use openwa_core::palette::{palette_context_init, update_palette, DisplayPalette, PaletteContext};

#[test]
fn clip_rect_is_clamped_to_display_and_layer() {
    let (clip, layer) = set_clip_rect(
        Fixed(-0x5_0000),
        Fixed(0x1_8000),
        Fixed(700 << 16),
        Fixed(100 << 16),
        640,
        480,
        320,
        200,
    );
    assert_eq!(clip, ClipRect { x1: 0, y1: 1, x2: 640, y2: 100 });
    assert_eq!(layer, LayerClip { left: 0, top: 1, right: 320, bottom: 100 });
}

#[test]
fn clip_rect_rounds_fractions_down() {
    let (clip, _) = set_clip_rect(Fixed(0x2_8000), Fixed(-0x8000), Fixed(0x9_c000), Fixed(0x4_0000), 640, 480, 640, 480);
    assert_eq!(clip, ClipRect { x1: 2, y1: 0, x2: 9, y2: 4 });
}

#[test]
fn fill_rect_is_moved_by_camera_and_clipped() {
    let clip = ClipRect { x1: 0, y1: 0, x2: 40, y2: 20 };
    assert_eq!(
        fill_rect(10, 10, 50, 30, 5, -5, clip),
        Some(FillArea { left: 15, top: 5, width: 25, height: 15 })
    );
    assert_eq!(fill_rect(-20, 0, -5, 10, 5, 0, clip), None);
    assert_eq!(fill_rect(0, 25, 10, 30, 0, 0, clip), None);
}

#[test]
fn bitmap_blit_is_clipped_with_source_offset() {
    let clip = ClipRect { x1: 0, y1: 0, x2: 100, y2: 100 };
    assert_eq!(
        blit_bitmap_clipped(-10, 5, 30, 10, 2, clip),
        Some(BitmapBlit { dst_x: 0, dst_y: 5, src_x: 10, src_y: 0, width: 20, height: 10, flags: 3 })
    );
    assert_eq!(blit_bitmap_clipped(10, 10, 0, 10, 0, clip), None);
    assert_eq!(blit_bitmap_clipped(100, 10, 5, 5, 0, clip), None);
}

#[test]
fn tiling_starts_at_or_left_of_the_clip_edge() {
    let clip = ClipRect { x1: 20, y1: 0, x2: 60, y2: 10 };
    assert_eq!(blit_bitmap_tiled(5, 16, clip), (5, vec![5, 21, 37, 53]));
    assert_eq!(blit_bitmap_tiled(100, 16, clip), (20, vec![20, 36, 52]));
    let narrow = ClipRect { x1: 20, y1: 0, x2: 10, y2: 10 };
    assert_eq!(blit_bitmap_tiled(20, 4, narrow), (20, vec![]));
}

#[test]
fn terrain_is_laid_out_row_by_row() {
    let grid = TerrainGrid { total_width: 100, total_height: 50, col_width: 64, row_height: 16 };
    let (flags, blits) = draw_tiled_terrain(0, 0, Fixed(10 << 16), Fixed(20 << 16), 25, 1, true, grid);
    assert_eq!(flags, 2);
    assert_eq!(
        blits,
        vec![
            TerrainBlit { x: 10, y: 20, width: 64, height: 16, bitmap_index: 0 },
            TerrainBlit { x: 74, y: 20, width: 36, height: 16, bitmap_index: 1 },
            TerrainBlit { x: 10, y: 36, width: 64, height: 9, bitmap_index: 2 },
            TerrainBlit { x: 74, y: 36, width: 36, height: 9, bitmap_index: 3 },
        ]
    );
}

#[test]
fn terrain_needs_mode_one_rows_and_tiles() {
    let grid = TerrainGrid { total_width: 100, total_height: 50, col_width: 64, row_height: 16 };
    let (flags, blits) = draw_tiled_terrain(3, 4, Fixed(0), Fixed(0), 100, 0x10_0001, true, grid);
    assert_eq!(flags, 0);
    assert_eq!(blits.len(), 8);
    assert_eq!(blits[5], TerrainBlit { x: 67, y: 36, width: 36, height: 16, bitmap_index: 5 });
    assert!(draw_tiled_terrain(0, 0, Fixed(0), Fixed(0), 25, 2, true, grid).1.is_empty());
    assert!(draw_tiled_terrain(0, 0, Fixed(0), Fixed(0), 0, 1, true, grid).1.is_empty());
    assert!(draw_tiled_terrain(0, 0, Fixed(0), Fixed(0), 25, 1, false, grid).1.is_empty());
}

#[test]
fn crosshair_draws_outline_then_block() {
    let px = draw_crosshair(10, 20, 1, 1, 0x1FF, 7);
    assert_eq!(px.len(), 12);
    assert_eq!(px[0], (11, 20, 7));
    assert_eq!(px[3], (13, 21, 7));
    assert_eq!(px[8], (11, 21, 0xFF));
    assert_eq!(px[11], (12, 22, 0xFF));
}

#[test]
fn outlined_pixel_outline_only_with_background() {
    assert_eq!(draw_outlined_pixel(5, 5, 0, 0, 9, 0), vec![(5, 5, 9)]);
    assert_eq!(
        draw_outlined_pixel(5, 5, 1, 0, 9, 2),
        vec![(5, 5, 2), (7, 5, 2), (6, 4, 2), (6, 6, 2), (6, 5, 9)]
    );
}

#[test]
fn pixel_strip_walks_in_fixed_point() {
    let px = draw_pixel_strip(1, 0, Fixed(0x8000), Fixed(0), Fixed(0x1_0000), Fixed(0x8000), 2, 3);
    assert_eq!(px, vec![(1, 0, 3), (2, 0, 3), (3, 1, 3)]);
    assert!(draw_pixel_strip(0, 0, Fixed(0), Fixed(0), Fixed(0), Fixed(0), -1, 3).is_empty());
}

#[test]
fn polyline_points_are_moved_by_camera() {
    let pts = [0x1_0000, 0x2_0000, 0x3_0000, 0x4_0000];
    assert_eq!(
        draw_polyline(&pts, 2, 1, 2),
        Some(vec![(Fixed(0x2_0000), Fixed(0x4_0000)), (Fixed(0x4_0000), Fixed(0x6_0000))])
    );
    assert_eq!(draw_polyline(&pts, 0, 1, 2), None);
    assert_eq!(draw_polyline(&pts, 257, 1, 2), None);
    assert_eq!(draw_polyline(&pts, -3, 1, 2), None);
}

fn four_frame_sprite(flags: u16) -> LayerSprite {
    LayerSprite {
        name: b"test".to_vec(),
        header_flags: 0,
        palette_rgb: vec![],
        field_60: 0,
        flags,
        cell_width: 32,
        cell_height: 24,
        frames: (0..4)
            .map(|i| LayerSpriteFrame { start_x: i, start_y: 0, end_x: i + 8, end_y: 8 })
            .collect(),
        pixels: vec![vec![]; 4],
    }
}

#[test]
fn bitmap_sprite_frame_forward_and_ping_pong() {
    let fwd = four_frame_sprite(0);
    let info = get_bitmap_sprite_info(&fwd, 0x8000);
    assert_eq!(info.frame_index, 2);
    assert_eq!((info.width, info.height), (32, 24));
    assert_eq!((info.left, info.top, info.right, info.bottom), (2, 0, 10, 8));
    assert_eq!(get_bitmap_sprite_info(&fwd, 0xFFFF_FFFF).frame_index, 0);
    assert_eq!(get_bitmap_sprite_info(&fwd, 0x7_0000).frame_index, 3);
    let raw = four_frame_sprite(1);
    assert_eq!(get_bitmap_sprite_info(&raw, 0x1_8000).frame_index, 2);
    let bounce = four_frame_sprite(2);
    assert_eq!(get_bitmap_sprite_info(&bounce, 0xC000).frame_index, 2);
    assert_eq!(get_bitmap_sprite_info(&bounce, 0x4000).frame_index, 1);
}

fn empty_context() -> PaletteContext {
    PaletteContext {
        dirty_range_min: 0,
        dirty_range_max: 0,
        cache: vec![0; 256],
        cache_count: 0,
        cache_iter: 3,
        free_stack: vec![0; 256],
        free_count: 0,
        in_use: vec![1; 256],
        dirty: 1,
        rgb_table: vec![0; 256],
    }
}

#[test]
fn palette_context_owns_its_range() {
    let mut ctx = empty_context();
    palette_context_init(&mut ctx, 10, 13);
    assert_eq!((ctx.dirty_range_min, ctx.dirty_range_max), (10, 13));
    assert_eq!(ctx.free_count, 4);
    assert_eq!(&ctx.free_stack[0..5], &[13, 12, 11, 10, 0]);
    assert!(ctx.in_use.iter().all(|&b| b == 0));
    assert_eq!((ctx.cache_count, ctx.cache_iter, ctx.dirty), (0, 0, 0));
}

#[test]
fn palette_update_copies_cached_colours() {
    let mut ctx = empty_context();
    palette_context_init(&mut ctx, 5, 7);
    ctx.cache[0] = 5;
    ctx.cache[1] = 7;
    ctx.cache_count = 2;
    ctx.rgb_table[5] = 0x0033_2211;
    ctx.rgb_table[6] = 0x0099_9999;
    ctx.rgb_table[7] = 0x0066_5544;
    let mut display = DisplayPalette { entries: vec![0xEE; 1024], dirty_min: 0x100, dirty_max: 0xFFFF_FFFF };
    assert_eq!(update_palette(&mut display, &mut ctx, 0), None);
    assert_eq!(&display.entries[20..32], &[0x11, 0x22, 0x33, 0, 0xEE, 0xEE, 0xEE, 0xEE, 0x44, 0x55, 0x66, 0]);
    assert_eq!((display.dirty_min, display.dirty_max), (5, 7));
    assert_eq!(ctx.cache_iter, 2);
    assert_eq!(update_palette(&mut display, &mut ctx, 1), Some((5, 7)));
    assert_eq!((display.dirty_min, display.dirty_max), (0x100, 0xFFFF_FFFF));
}

#[test]
fn palette_update_without_cache_changes_nothing() {
    let mut ctx = empty_context();
    let mut display = DisplayPalette { entries: vec![1; 1024], dirty_min: 3, dirty_max: 4 };
    assert_eq!(update_palette(&mut display, &mut ctx, 1), None);
    assert_eq!((display.dirty_min, display.dirty_max), (3, 4));
    assert_eq!(ctx.cache_iter, 0);
}

#[test]
fn render_lock_mirrors_clip_onto_layer() {
    let clip = ClipRect { x1: -5, y1: 10, x2: 900, y2: 100 };
    assert_eq!(
        acquire_render_lock(true, 320, 200, 800, 600, clip),
        LockedLayer { width: 800, height: 600, clip: LayerClip { left: 0, top: 10, right: 800, bottom: 100 } }
    );
    assert_eq!(
        acquire_render_lock(false, 320, 200, 800, 600, clip),
        LockedLayer { width: 320, height: 200, clip: LayerClip { left: 0, top: 10, right: 320, bottom: 100 } }
    );
}
