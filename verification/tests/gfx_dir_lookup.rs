use openwa_core::gfx_dir::{gfx_dir_find_entry, gfx_dir_hash, gfx_dir_load_table, GFX_DIR_BUCKETS};

fn table_bytes() -> Vec<u8> {
    let mut t = vec![0u8; GFX_DIR_BUCKETS * 4];
    // Bucket 683 ("abc") points at the node stored right after the buckets.
    let off = (t.len() + 4) as u32;
    t[683 * 4..683 * 4 + 4].copy_from_slice(&off.to_le_bytes());
    t.extend_from_slice(&0u32.to_le_bytes()); // next
    t.extend_from_slice(&0x55u32.to_le_bytes()); // value
    t.extend_from_slice(&7u32.to_le_bytes()); // unknown
    t.extend_from_slice(b"abc\0");
    t
}

#[test]
fn name_hash() {
    assert_eq!(gfx_dir_hash(b"abc"), 683);
    assert_eq!(gfx_dir_hash(b""), 0);
    assert!(gfx_dir_hash(&[b'a'; 300]) < 1024);
}

#[test]
fn load_and_find() {
    let d = gfx_dir_load_table(&table_bytes()).expect("table");
    assert_eq!(d.buckets.len(), GFX_DIR_BUCKETS);
    assert_eq!(d.buckets[683].len(), 1);
    assert_eq!(d.buckets[683][0].value, 0x55);
    assert_eq!(d.buckets[683][0]._unknown_08, 7);
    assert_eq!(d.buckets[683][0].name, b"abc".to_vec());
    assert_eq!(gfx_dir_find_entry(b"abc\0", &d), Some((683, 0)));
    // Case-insensitive, and the text after the terminator is ignored.
    assert_eq!(gfx_dir_find_entry(b"ABC\0xyz", &d), Some((683, 0)));
    // Fallback names after '|'.
    assert_eq!(gfx_dir_find_entry(b"zzz|abc\0", &d), Some((683, 0)));
    assert_eq!(gfx_dir_find_entry(b"zzz|nope", &d), None);
    assert_eq!(gfx_dir_find_entry(b"", &d), None);
}

#[test]
fn broken_chains_are_rejected() {
    let mut t = table_bytes();
    t[0..4].copy_from_slice(&0xFFFF_0000u32.to_le_bytes());
    assert!(gfx_dir_load_table(&t).is_none());
    // A name that runs to the end of the table.
    let mut u = table_bytes();
    u.pop();
    assert!(gfx_dir_load_table(&u).is_none());
    // A chain that points back at itself never ends.
    let mut v = table_bytes();
    let off = (GFX_DIR_BUCKETS * 4 + 4) as u32;
    let at = GFX_DIR_BUCKETS * 4;
    v[at..at + 4].copy_from_slice(&off.to_le_bytes());
    assert!(gfx_dir_load_table(&v).is_none());
}

#[test]
fn archive_header_needs_magic() {
    let mut h = b"DIR\x1A".to_vec();
    h.extend_from_slice(&100u32.to_le_bytes());
    h.extend_from_slice(&40u32.to_le_bytes());
    let hd = openwa_core::gfx_dir::gfx_dir_header(&h).unwrap();
    assert_eq!((hd.total_file_size, hd.data_size), (100, 40));
    let plan = openwa_core::gfx_dir::gfx_dir_read_plan(hd);
    assert_eq!((plan.skip, plan.read_size, plan.buffer_size), (44, 56, 88));
    assert!(openwa_core::gfx_dir::gfx_dir_header(&h[..11]).is_none());
    let mut bad = h.clone();
    bad[3] = 0;
    assert!(openwa_core::gfx_dir::gfx_dir_header(&bad).is_none());
}

#[test]
fn archive_read_plan_wraps_like_the_game() {
    let hd = openwa_core::gfx_dir::GfxDirHeader { total_file_size: 10, data_size: 20 };
    let plan = openwa_core::gfx_dir::gfx_dir_read_plan(hd);
    assert_eq!(plan.read_size, 0xFFFF_FFF2);
    assert_eq!(plan.buffer_size, 0x14);
}
