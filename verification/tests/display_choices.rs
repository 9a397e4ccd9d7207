use openwa_core::display::{
    get_sprite_frame_for_blit, get_sprite_info, FramePixels, SpriteForBlit, SpriteFrameBox, is_sprite_loaded, sprite_info_from_bank, SpriteBank, SpriteBankFrame, SpriteInfo, SpriteMeta,
    draw_scaled_sprite, palette_slot_alloc, sprite_frame_for, subframe_index, ColorTableChoice,
    DrawScaledSpriteResult, SpriteAnim, SLOT_TABLE_LEN,
};
use openwa_core::fixed::Fixed;

fn fresh_slots() -> Vec<u32> {
    let mut t = vec![1u32; SLOT_TABLE_LEN];
    t[0] = 0;
    t[SLOT_TABLE_LEN - 1] = 0xFFFF_FFFF;
    t
}

#[test]
fn slots_are_taken_first_fit() {
    let mut t = fresh_slots();
    assert_eq!(palette_slot_alloc(&mut t, 3), 1);
    assert_eq!(&t[0..5], &[0, 0, 0, 0, 1]);
    assert_eq!(palette_slot_alloc(&mut t, 2), 4);
    assert_eq!(&t[3..7], &[0, 0, 0, 1]);
    let before = t.clone();
    assert_eq!(palette_slot_alloc(&mut t, 0), 0);
    assert_eq!(t, before);
}

#[test]
fn slot_runs_restart_after_a_taken_slot() {
    let mut t = fresh_slots();
    t[2] = 0;
    assert_eq!(palette_slot_alloc(&mut t, 2), 3);
}

#[test]
fn slot_allocation_fails_at_the_sentinel() {
    let mut t = fresh_slots();
    let before = t.clone();
    assert_eq!(palette_slot_alloc(&mut t, 300), -1);
    assert_eq!(palette_slot_alloc(&mut t, -1), -1);
    assert_eq!(t, before);
    // 255 free slots fit exactly; one more does not.
    assert_eq!(palette_slot_alloc(&mut t.clone(), 255), 1);
    assert_eq!(palette_slot_alloc(&mut t, 256), -1);
}

fn anim(flags: u16, max_frames: u16, round: u8) -> SpriteAnim {
    SpriteAnim { flags, max_frames, frame_round_mode: round, scale_x: 0, scale_y: 0, is_scaled: 0 }
}

#[test]
fn frame_index_from_animation_value() {
    let s = anim(0, 10, 0);
    assert_eq!(sprite_frame_for(&s, 0x8000), (5, 0));
    assert_eq!(sprite_frame_for(&s, 0x2_0000), (9, 0));
    assert_eq!(sprite_frame_for(&s, 0xFFFF_FFFF), (0, 0));
    assert_eq!(sprite_frame_for(&anim(1, 10, 0), 0x1_8000), (5, 0));
    assert_eq!(sprite_frame_for(&anim(2, 10, 0), 0xC000), (4, 0));
}

#[test]
fn rounded_frame_index_wraps_at_the_end() {
    let s = anim(0, 10, 1);
    assert_eq!(sprite_frame_for(&s, 0xFFFF), (0, 0));
    assert_eq!(sprite_frame_for(&s, 0xE000), (9, 0));
}

#[test]
fn scaled_sprite_interpolates() {
    let up = SpriteAnim {
        flags: 0,
        max_frames: 1,
        frame_round_mode: 0,
        scale_x: 0x1_0000,
        scale_y: 0x3_0000,
        is_scaled: 1,
    };
    assert_eq!(sprite_frame_for(&up, 0x8000), (0, 0x2_0000));
    let down = SpriteAnim { scale_x: 0x2_0001, scale_y: 0x1_0000, ..up };
    // The product is floored before the start scale is added.
    assert_eq!(sprite_frame_for(&down, 0x4001), (0, 0x1_BFFF));
}

#[test]
fn subframe_index_is_signed() {
    assert_eq!(subframe_index(0xFF00_1234), -1);
    assert_eq!(subframe_index(0x0500_0000), 5);
    assert_eq!(subframe_index(0x8000_0000), -128);
}

#[test]
fn scaled_sprite_modes() {
    let r = draw_scaled_sprite(10, 20, 7, Fixed(0x5_0000), Fixed(-0x1_8000), 9, 0, 0, 8, 6, 0);
    assert_eq!(
        r,
        DrawScaledSpriteResult::Blit {
            layer: 7,
            dst_x: 11,
            dst_y: 15,
            width: 8,
            height: 6,
            sprite: 9,
            src_x: 0,
            src_y: 0,
            color_table: ColorTableChoice::NoTable,
            blit_flags: 1,
        }
    );
    match draw_scaled_sprite(0, 0, 0, Fixed(0), Fixed(0), 0, 0, 0, 2, 2, 0x30_0000) {
        DrawScaledSpriteResult::Blit { color_table, blit_flags, .. } => {
            assert_eq!(color_table, ColorTableChoice::Additive);
            assert_eq!(blit_flags, 0);
        }
        other => panic!("unexpected {other:?}"),
    }
    match draw_scaled_sprite(0, 0, 0, Fixed(0), Fixed(0), 0, 0, 0, 2, 2, 0x400_0000) {
        DrawScaledSpriteResult::Blit { color_table, .. } => {
            assert_eq!(color_table, ColorTableChoice::Blend)
        }
        other => panic!("unexpected {other:?}"),
    }
    assert_eq!(
        draw_scaled_sprite(0, 0, 0, Fixed(0), Fixed(0), 0, 0, 0, 0, 2, 0),
        DrawScaledSpriteResult::Handled
    );
    // Stippling is decided before the size check; a negative width halves
    // toward zero.
    assert_eq!(
        draw_scaled_sprite(10, 0, 1, Fixed(0x5_0000), Fixed(0), 2, 4, 0, 0, 2, 0x1000_0000),
        DrawScaledSpriteResult::Stippled {
            layer: 1,
            dst_x: 17,
            dst_y: -1,
            width: -4,
            height: 2,
            sprite: 2,
            src_x: 4,
            src_y: 0,
            stipple_mode: 1,
        }
    );
}

#[test]
fn sprite_info_packs_rate_and_counts_bounce_frames() {
    let s = SpriteMeta { has_frames: true, unknown_08: 0x12, fps: 25, flags: 3, max_frames: 4 };
    assert_eq!(get_sprite_info(7, Some(&s), None), Some(SpriteInfo { data: 0x19_0012, flags: 1, width: 7 }));
    let unloaded = SpriteMeta { has_frames: false, ..s };
    assert_eq!(get_sprite_info(7, Some(&unloaded), None), None);
    assert_eq!(get_sprite_info(0, Some(&s), None), None);
    assert_eq!(get_sprite_info(0x400, Some(&s), None), None);
    assert_eq!(get_sprite_info(5, None, None), None);
}

#[test]
fn bank_sprite_info_goes_through_the_index_table() {
    let frame = |flags, scale_or_count, data_value| SpriteBankFrame {
        flags,
        width: 0,
        height: 0,
        base_frame_idx: 0,
        scale_or_count,
        data_value,
    };
    let bank = SpriteBank {
        base_id: 100,
        index_table: vec![2, -1, 0, 1],
        has_frames: true,
        frames: vec![frame(0, 5, 0x10), frame(1, 0x8001, 7), frame(2, 3, 1)],
    };
    assert_eq!(get_sprite_info(100, None, Some(&bank)), Some(SpriteInfo { data: 0x100, flags: 0, width: 5 }));
    assert_eq!(sprite_info_from_bank(&bank, 101), None);
    assert_eq!(sprite_info_from_bank(&bank, 102), Some(SpriteInfo { data: 0x1000, flags: 0, width: 5 }));
    assert_eq!(sprite_info_from_bank(&bank, 103), Some(SpriteInfo { data: 0x700, flags: 1, width: 1 }));
    let unloaded = SpriteBank { has_frames: false, ..bank.clone() };
    assert_eq!(sprite_info_from_bank(&unloaded, 100), None);
}

#[test]
fn sprite_slots_are_looked_up_in_all_three_tables() {
    let mut sprites = vec![false; 0x400];
    let banks = vec![false; 0x400];
    let mut layers = vec![false; 0x400];
    sprites[5] = true;
    layers[9] = true;
    assert!(is_sprite_loaded(5, &sprites, &banks, &layers));
    assert!(is_sprite_loaded(9, &sprites, &banks, &layers));
    assert!(!is_sprite_loaded(6, &sprites, &banks, &layers));
    sprites[0] = true;
    assert!(!is_sprite_loaded(0, &sprites, &banks, &layers));
    assert!(!is_sprite_loaded(0x400, &sprites, &banks, &layers));
}

#[test]
fn blit_frame_lookup_uses_the_tighter_id_range() {
    let frames: Vec<SpriteFrameBox> = (0..10)
        .map(|i| SpriteFrameBox { start_x: i, start_y: -1, end_x: i + 4, end_y: 5, bitmap_offset: 0xFE00_0010 + i as u32 })
        .collect();
    let s = SpriteForBlit { anim: anim(0, 10, 0), width: 40, height: 30, header_flags: 0, frames };
    let f = get_sprite_frame_for_blit(3, Some(&s), false, 0x8000).unwrap();
    assert_eq!((f.frame_index, f.anim_frac), (5, 0));
    assert_eq!((f.left, f.top, f.right, f.bottom), (5, -1, 9, 5));
    assert_eq!((f.width, f.height, f.frame_width, f.frame_height), (40, 30, 4, 6));
    assert_eq!(f.pixels, FramePixels::Flat(0xFE00_0015));
    let cached = SpriteForBlit { header_flags: 0x4000, ..s.clone() };
    let c = get_sprite_frame_for_blit(0x3FE, Some(&cached), false, 0x8000).unwrap();
    assert_eq!(c.pixels, FramePixels::Cached { subframe: -2, offset: 0x15 });
    assert_eq!(get_sprite_frame_for_blit(0x3FF, Some(&s), false, 0x8000), None);
    assert_eq!(get_sprite_frame_for_blit(0, Some(&s), false, 0x8000), None);
    assert_eq!(get_sprite_frame_for_blit(3, None, false, 0x8000), None);
}
