use openwa_core::display::{SpriteAnim, SLOT_TABLE_LEN};
use openwa_core::registry::{
    load_font, load_font_extension, load_font_register, load_sprite, load_sprite_by_layer, load_sprite_by_layer_register,
    load_sprite_register, set_active_layer, set_layer_color, set_layer_visibility, DisplayRegistry,
    LoadStep,
};
use openwa_core::palette::DisplayPalette;

fn fresh_slots() -> Vec<u32> {
    let mut t = vec![1u32; SLOT_TABLE_LEN];
    t[0] = 0;
    t[SLOT_TABLE_LEN - 1] = 0xFFFF_FFFF;
    t
}

fn anim(max_frames: u16) -> SpriteAnim {
    SpriteAnim { flags: 0, max_frames, frame_round_mode: 0, scale_x: 0, scale_y: 0, is_scaled: 0 }
}

#[test]
fn sprites_need_a_palette_layer() {
    let mut reg = DisplayRegistry::new();
    let mut slots = fresh_slots();
    assert_eq!(load_sprite(&reg, 1, 5), LoadStep::Done(0));
    set_layer_color(&mut reg, &mut slots, 1, 4);
    let ctx = reg.layer_contexts[0].as_ref().unwrap();
    assert_eq!((ctx.dirty_range_min, ctx.dirty_range_max, ctx.free_count), (1, 4, 4));
    assert_eq!(&slots[0..6], &[0, 0, 0, 0, 0, 1]);
    assert_eq!(load_sprite(&reg, 1, 5), LoadStep::Load);
    assert_eq!(load_sprite(&reg, 2, 5), LoadStep::Done(0));
    assert_eq!(load_sprite(&reg, 4, 5), LoadStep::Done(0));
    assert_eq!(load_sprite(&reg, 1, 0x400), LoadStep::Done(0));
    assert_eq!(load_sprite(&reg, 1, 5 | 0x80_0000), LoadStep::Done(1));
}

#[test]
fn registering_a_sprite_takes_its_id() {
    let mut reg = DisplayRegistry::new();
    let mut slots = fresh_slots();
    set_layer_color(&mut reg, &mut slots, 1, 4);
    let mut s = anim(10);
    assert_eq!(load_sprite_register(&mut reg, 1, 5, 1, true, &mut s), 1);
    assert_eq!(s.max_frames, 5);
    assert!(reg.sprites[5]);
    assert_eq!(reg.sprite_layers[5], 1);
    assert_eq!(reg.layer_visibility[0], 1);
    assert_eq!(load_sprite(&reg, 1, 5), LoadStep::Done(0));
    assert_eq!(load_sprite_by_layer(&reg, 5), LoadStep::Done(1));
    let mut t = anim(3);
    assert_eq!(load_sprite_register(&mut reg, 1, 6, 1, false, &mut t), 0);
    assert!(!reg.sprites[6]);
    assert_eq!(t.max_frames, 3);
    let mut u = anim(3);
    assert_eq!(load_sprite_register(&mut reg, 1, 7, 1, true, &mut u), 1);
    assert_eq!(u.max_frames, 3);
}

#[test]
fn layer_sprites_and_fonts_have_their_own_tables() {
    let mut reg = DisplayRegistry::new();
    let mut slots = fresh_slots();
    assert_eq!(load_sprite_by_layer(&reg, 7), LoadStep::Load);
    assert_eq!(load_sprite_by_layer(&reg, 0), LoadStep::Done(0));
    assert_eq!(load_sprite_by_layer_register(&mut reg, 7, true), 1);
    set_layer_color(&mut reg, &mut slots, 1, 2);
    assert_eq!(load_sprite(&reg, 1, 7), LoadStep::Done(0));
    assert_eq!(load_font(&reg, 1, 3), LoadStep::Load);
    assert_eq!(load_font_register(&mut reg, 1, 3, true), 1);
    assert_eq!(load_font(&reg, 1, 3), LoadStep::Done(0));
    assert_eq!(load_font(&reg, 1, 32), LoadStep::Done(0));
    assert_eq!(load_font(&reg, 2, 4), LoadStep::Done(0));
    assert_eq!(reg.font_layers[3], 1);
    assert_eq!(load_font_extension(&reg, 3), Some(1));
    assert_eq!(load_font_extension(&reg, 4), None);
    assert_eq!(load_font_extension(&reg, 40), None);
    assert_eq!(reg.layer_visibility[0], 1);
}

#[test]
fn a_layer_is_set_up_once() {
    let mut reg = DisplayRegistry::new();
    let mut slots = fresh_slots();
    set_layer_color(&mut reg, &mut slots, 2, 3);
    let before = slots.clone();
    set_layer_color(&mut reg, &mut slots, 2, 5);
    assert_eq!(slots, before);
    assert_eq!(reg.layer_contexts[1].as_ref().unwrap().free_count, 3);
    set_layer_color(&mut reg, &mut slots, 0, 5);
    assert_eq!(slots, before);
}

#[test]
fn showing_a_layer_commits_its_colours() {
    let mut reg = DisplayRegistry::new();
    let mut slots = fresh_slots();
    set_layer_color(&mut reg, &mut slots, 1, 4);
    {
        let ctx = reg.layer_contexts[0].as_mut().unwrap();
        ctx.cache[0] = 2;
        ctx.cache_count = 1;
        ctx.rgb_table[2] = 0x0003_0201;
    }
    reg.layer_visibility[0] = 5;
    let mut display = DisplayPalette { entries: vec![0; 1024], dirty_min: 0x100, dirty_max: 0xFFFF_FFFF };
    assert_eq!(set_layer_visibility(&mut reg, &mut display, 1, 1), Some((1, 4)));
    assert_eq!(&display.entries[8..12], &[1, 2, 3, 0]);
    assert_eq!((display.dirty_min, display.dirty_max), (0x100, 0xFFFF_FFFF));
    assert_eq!(reg.layer_visibility[0], 5);
    assert_eq!(set_layer_visibility(&mut reg, &mut display, 1, -1), Some((1, 4)));
    assert_eq!(reg.layer_visibility[0], 0);
    assert_eq!(set_layer_visibility(&mut reg, &mut display, 2, 1), None);
    assert_eq!(set_layer_visibility(&mut reg, &mut display, 7, 1), None);
    assert!(set_active_layer(&reg, 1).is_some());
    assert!(set_active_layer(&reg, 2).is_none());
    assert!(set_active_layer(&reg, 0).is_none());
}

#[test]
fn load_sprite_id_high_half_seeds_round_mode() {
    let mut reg = DisplayRegistry::new();
    let mut slots = fresh_slots();
    set_layer_color(&mut reg, &mut slots, 1, 4);
    assert_eq!(load_sprite(&reg, 1, 0x0001_0005), LoadStep::Load);
    let mut s = anim(10);
    assert_eq!(load_sprite_register(&mut reg, 1, 0x0001_0005, 1, true, &mut s), 1);
    assert_eq!(s.frame_round_mode, 1);
    assert_eq!(s.max_frames, 5);
    assert!(reg.sprites[5]);
    assert_eq!(load_sprite(&reg, 1, 5), LoadStep::Done(0));
    assert_eq!(load_sprite(&reg, 1, 0x0002_0000), LoadStep::Done(0));
}
