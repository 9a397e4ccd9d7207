use openwa_core::layer_sprite::{
    load_sprite_by_name, remap_sprite_pixels, sprite_name, sprite_palette_lut, LayerSprite,
    LayerSpriteFrame,
};

fn stream() -> Vec<u8> {
    let mut d = Vec::new();
    d.extend_from_slice(&[0u8; 4]);
    d.extend_from_slice(&60u32.to_le_bytes());
    d.extend_from_slice(&0x1234u16.to_le_bytes());
    d.extend_from_slice(&2u16.to_le_bytes());
    d.extend_from_slice(&[0, 0, 0, 1, 2, 3]);
    d.extend_from_slice(&0xAABB_CCDDu32.to_le_bytes());
    d.extend_from_slice(&5u16.to_le_bytes());
    d.extend_from_slice(&8i16.to_le_bytes());
    d.extend_from_slice(&(-2i16).to_le_bytes());
    d.extend_from_slice(&2u16.to_le_bytes());
    d.extend_from_slice(&[0xEE, 0xEE]); // padding: 28 bytes remain after it
    for (sx, sy, ex, ey) in [(1i16, 1i16, 3i16, 3i16), (5, 0, 5, 3)] {
        d.extend_from_slice(&[0u8; 4]);
        for v in [sx, sy, ex, ey] {
            d.extend_from_slice(&v.to_le_bytes());
        }
    }
    d.extend_from_slice(&[9, 8, 7, 6]);
    d
}

#[test]
fn reads_a_layer_sprite_stream() {
    let d = stream();
    assert_eq!(d.len(), 60);
    let s = load_sprite_by_name(b"water.img\0", &d, &[true, true]);
    assert_eq!(s.name, b"water.img".to_vec());
    assert_eq!(s.header_flags, 0x1234);
    assert_eq!(s.palette_rgb, vec![0, 0x0003_0201]);
    assert_eq!(s.field_60, 0xAABB_CCDD);
    assert_eq!(s.flags, 5);
    assert_eq!((s.cell_width, s.cell_height), (8, -2));
    assert_eq!(
        s.frames,
        vec![
            LayerSpriteFrame { start_x: 1, start_y: 1, end_x: 3, end_y: 3 },
            LayerSpriteFrame { start_x: 5, start_y: 0, end_x: 5, end_y: 3 },
        ]
    );
    assert_eq!(s.pixels, vec![vec![9, 8, 7, 6], vec![]]);
}

#[test]
fn padding_depends_on_the_bytes_left() {
    // Without the two padding bytes the frames start right after the metrics.
    let mut d = stream();
    d.drain(30..32);
    let s = load_sprite_by_name(b"x", &d, &[true, true]);
    assert_eq!(s.frames[0], LayerSpriteFrame { start_x: 1, start_y: 1, end_x: 3, end_y: 3 });
    assert_eq!(s.pixels[0], vec![9, 8, 7, 6]);
}

#[test]
fn long_names_are_cut() {
    let long = vec![b'a'; 100];
    assert_eq!(sprite_name(&long).len(), 79);
    assert_eq!(sprite_name(b"ab\0cd"), b"ab".to_vec());
}

#[test]
fn frames_without_a_surface_read_no_pixels() {
    let d = stream();
    let s = load_sprite_by_name(b"x", &d, &[false, true]);
    assert_eq!(s.frames.len(), 2);
    assert_eq!(s.pixels, vec![Vec::<u8>::new(), vec![]]);
    let mut two = stream();
    // Make the second frame 1x2 and give it its pixels (the stream grows
    // by four bytes so that the padding stays the same).
    two[50] = 1;
    two[52] = 6;
    two.extend_from_slice(&[4, 5, 0, 0]);
    let t = load_sprite_by_name(b"x", &two, &[false, true]);
    assert_eq!(t.pixels, vec![Vec::<u8>::new(), vec![9, 8]]);
    let u = load_sprite_by_name(b"x", &two, &[true, true]);
    assert_eq!(u.pixels, vec![vec![9, 8, 7, 6], vec![4, 5]]);
}

#[test]
fn palette_lut_keeps_black_and_zero_transparent() {
    let rgb = vec![0x00_00_10u32, 0, 0x30_20_10];
    let mapped = vec![40u8, 41, 42];
    let lut = sprite_palette_lut(&rgb, &mapped);
    assert_eq!(lut.len(), 256);
    assert_eq!(&lut[..5], &[0, 40, 0, 42, 0]);
    assert!(lut[4..].iter().all(|&v| v == 0));
}

#[test]
fn remapping_recolours_every_frame() {
    let mut sprite = LayerSprite {
        name: b"x".to_vec(),
        header_flags: 1,
        palette_rgb: vec![5, 0],
        field_60: 2,
        flags: 3,
        cell_width: 4,
        cell_height: 5,
        frames: vec![],
        pixels: vec![vec![0, 1, 2, 1], vec![], vec![2]],
    };
    let lut = sprite_palette_lut(&sprite.palette_rgb.clone(), &vec![77, 78]);
    remap_sprite_pixels(&mut sprite, &lut);
    assert_eq!(sprite.pixels, vec![vec![0, 77, 0, 77], vec![], vec![0]]);
    assert_eq!(sprite.palette_rgb, vec![5, 0]);
    assert_eq!(sprite.name, b"x".to_vec());
}
