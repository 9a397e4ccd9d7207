use openwa_core::spr::{parse_spr_header, ParsedSprite, SprError};

/// Build a minimal single-frame .spr with given dimensions and palette.
fn make_spr(width: u16, height: u16, palette_count: u16, frame_count: u16) -> Vec<u8> {
    let mut data = Vec::new();
    data.extend_from_slice(&0u32.to_le_bytes());
    let data_size_pos = data.len();
    data.extend_from_slice(&0u32.to_le_bytes());
    data.extend_from_slice(&0u16.to_le_bytes());
    data.extend_from_slice(&palette_count.to_le_bytes());
    for _ in 0..palette_count {
        data.extend_from_slice(&[0u8; 3]);
    }
    data.extend_from_slice(&0u16.to_le_bytes());
    data.extend_from_slice(&10u16.to_le_bytes());
    data.extend_from_slice(&0u16.to_le_bytes());
    data.extend_from_slice(&width.to_le_bytes());
    data.extend_from_slice(&height.to_le_bytes());
    data.extend_from_slice(&frame_count.to_le_bytes());
    while data.len() % 4 != 0 {
        data.push(0);
    }
    for i in 0..frame_count {
        let offset = i as u32 * width as u32 * height as u32;
        data.extend_from_slice(&offset.to_le_bytes());
        data.extend_from_slice(&0u16.to_le_bytes());
        data.extend_from_slice(&0u16.to_le_bytes());
        data.extend_from_slice(&width.to_le_bytes());
        data.extend_from_slice(&height.to_le_bytes());
    }
    let bitmap_bytes = width as usize * height as usize * frame_count as usize;
    data.resize(data.len() + bitmap_bytes, 0);
    let total = (data.len() - 4) as u32;
    data[data_size_pos..data_size_pos + 4].copy_from_slice(&total.to_le_bytes());
    data
}

#[test]
fn parse_single_frame() {
    let data = make_spr(32, 16, 4, 1);
    let hdr = parse_spr_header(&data).unwrap();

    assert_eq!(hdr.width, 32);
    assert_eq!(hdr.height, 16);
    assert_eq!(hdr.fps, 10);
    assert_eq!(hdr.palette_count, 4);
    assert_eq!(hdr.frame_count, 1);
    assert!(!hdr.is_scaled);
    assert_eq!(hdr.scale_x, 0);
    assert_eq!(hdr.scale_y, 0);
    assert_eq!(hdr.secondary_frame_count, 0);
    assert_eq!(hdr.palette_offset, 12);
    assert!(hdr.frame_meta_offset > 0);
    assert!(hdr.bitmap_offset > hdr.frame_meta_offset);
}

#[test]
fn parse_multi_frame() {
    let data = make_spr(8, 8, 2, 5);
    let hdr = parse_spr_header(&data).unwrap();

    assert_eq!(hdr.frame_count, 5);
    assert_eq!(hdr.max_frames, 5);
    assert_eq!(hdr.bitmap_offset - hdr.frame_meta_offset, 60);
}

#[test]
fn parse_scaled_sprite() {
    let mut data = make_spr(32, 32, 0, 1);
    data[22] = 0x50;
    data[23] = 0xA0;

    let hdr = parse_spr_header(&data).unwrap();

    assert!(hdr.is_scaled);
    assert_eq!(hdr.frame_count, 1);
    assert_eq!(hdr.max_frames, 1);
    assert_eq!(hdr.scale_x, (0x20u32 << 16) >> 5);
    assert_eq!(hdr.scale_y, (0x50u32 << 16) >> 5);
}

#[test]
fn parse_too_short() {
    assert!(parse_spr_header(&[0; 4]).is_err());
}

#[test]
fn parsed_sprite_single_frame() {
    let mut data = make_spr(4, 4, 3, 1);
    data[12] = 0xFF; data[13] = 0x00; data[14] = 0x00;
    data[15] = 0x00; data[16] = 0xFF; data[17] = 0x00;
    data[18] = 0x00; data[19] = 0x00; data[20] = 0xFF;

    let parsed = ParsedSprite::parse(&data).unwrap();
    assert_eq!(parsed.width, 4);
    assert_eq!(parsed.height, 4);
    assert_eq!(parsed.palette.len(), 3);
    assert_eq!(parsed.palette[0], [0xFF, 0x00, 0x00]);
    assert_eq!(parsed.palette[1], [0x00, 0xFF, 0x00]);
    assert_eq!(parsed.palette[2], [0x00, 0x00, 0xFF]);
    assert_eq!(parsed.frames.len(), 1);
    assert_eq!(parsed.bitmap.len(), 16);
}

#[test]
fn parsed_sprite_secondary_frames() {
    let mut data = Vec::new();
    data.extend_from_slice(&0u32.to_le_bytes());
    data.extend_from_slice(&0u32.to_le_bytes());
    data.extend_from_slice(&0x4000u16.to_le_bytes());
    data.extend_from_slice(&0u16.to_le_bytes());
    data.extend_from_slice(&2u16.to_le_bytes());
    while data.len() % 4 != 0 { data.push(0); }
    for _ in 0..2 {
        data.extend_from_slice(&[0u8; 12]);
    }
    data.extend_from_slice(&0u16.to_le_bytes());
    data.extend_from_slice(&15u16.to_le_bytes());
    data.extend_from_slice(&0u16.to_le_bytes());
    data.extend_from_slice(&8u16.to_le_bytes());
    data.extend_from_slice(&8u16.to_le_bytes());
    data.extend_from_slice(&1u16.to_le_bytes());
    while data.len() % 4 != 0 { data.push(0); }
    data.extend_from_slice(&0u32.to_le_bytes());
    data.extend_from_slice(&0u16.to_le_bytes());
    data.extend_from_slice(&0u16.to_le_bytes());
    data.extend_from_slice(&8u16.to_le_bytes());
    data.extend_from_slice(&8u16.to_le_bytes());
    data.resize(data.len() + 64, 0);
    let total = (data.len() - 4) as u32;
    data[4..8].copy_from_slice(&total.to_le_bytes());

    let parsed = ParsedSprite::parse(&data).unwrap();
    assert_eq!(parsed.secondary_frames.len(), 2);
    assert_eq!(parsed.frames.len(), 1);
    assert_eq!(parsed.header_flags, 0x4000);
}

#[test]
fn too_short_reports_needed_and_actual_lengths() {
    assert_eq!(
        parse_spr_header(&[0; 4]).unwrap_err(),
        SprError::TooShort { expected: 12, actual: 4 }
    );
    // Palette of 2 entries needs 18 bytes.
    let mut data = vec![0u8; 14];
    data[10] = 2;
    assert_eq!(
        parse_spr_header(&data).unwrap_err(),
        SprError::TooShort { expected: 18, actual: 14 }
    );
    // Header present but no main frame header.
    let data = vec![0u8; 20];
    assert_eq!(
        parse_spr_header(&data).unwrap_err(),
        SprError::TooShort { expected: 24, actual: 20 }
    );
}

#[test]
fn frame_records_are_read_little_endian() {
    let mut data = make_spr(3, 2, 0, 1);
    // frame record at offset 24
    data[24..28].copy_from_slice(&0x0102_0304u32.to_le_bytes());
    data[28..30].copy_from_slice(&7u16.to_le_bytes());
    let parsed = ParsedSprite::parse(&data).unwrap();
    assert_eq!(parsed.frames[0].bitmap_offset, 0x0102_0304);
    assert_eq!(parsed.frames[0].start_x, 7);
    assert_eq!(parsed.frames[0].end_x, 3);
    assert_eq!(parsed.frames[0].end_y, 2);
    assert_eq!(parsed.data_size, (data.len() - 4) as u32);
}
