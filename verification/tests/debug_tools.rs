use openwa_core::capture_view::{on_capture, on_step_toggle, StepView};
use std::time::Instant;

use openwa_core::debug_cli::{
    build_address_expr, fold_segments, hex_dump_line, hex_dump_lines, looks_like_hex, parse_hex,
    parse_u32, parse_u32_radix, pointer_line, resolve_base, resolve_chain_segment, resolve_offset, split_arrows, split_compound, strip_abs, AddressExpr,
    ChainSegment,
};
use openwa_core::debug_proto::{
    frame_bytes, frame_payload_len, FrameError, PointerInfo, PointerKind, MAX_FRAME_SIZE,
};
use openwa_core::layout::{
    decode_fields_from, encode_fields_into, field_error_of, first_error_of, mk_field, LayoutError,
};
use openwa_core::log::{clear, push, snapshot, LogBuffer, LOG_CAPACITY};
use openwa_core::snapshot::{
    fmt_ptr, fmt_ptr32, is_likely_pointer, pointer_flags, push_hex, write_indent, write_raw_region,
    ImageSections,
};

#[test]
fn numbers_in_hex_and_decimal() {
    assert_eq!(parse_u32("0x1F"), Some(31));
    assert_eq!(parse_u32("0X1f"), Some(31));
    assert_eq!(parse_u32("42"), Some(42));
    assert_eq!(parse_u32("+7"), Some(7));
    assert_eq!(parse_u32("4294967295"), Some(u32::MAX));
    assert_eq!(parse_u32("4294967296"), None);
    assert_eq!(parse_u32("-1"), None);
    assert_eq!(parse_u32(""), None);
    assert_eq!(parse_u32("0x"), None);
    assert_eq!(parse_hex("669F8C"), Some(0x669F8C));
    assert_eq!(parse_hex("0x7A0884"), Some(0x7A0884));
    assert_eq!(parse_hex("xyz"), None);
    assert_eq!(parse_u32_radix("777", 8), Some(511));
}

#[test]
fn hex_looking_text() {
    assert!(looks_like_hex("0x10"));
    assert!(looks_like_hex("7A0884"));
    assert!(!looks_like_hex("ddgame"));
    assert!(!looks_like_hex(""));
}

#[test]
fn compound_and_prefix_splitting() {
    assert_eq!(split_compound("0x669F8C+0x10"), ("0x669F8C", Some("0x10")));
    assert_eq!(split_compound("0x669F8C[16]"), ("0x669F8C", Some("16")));
    assert_eq!(split_compound("ddgame[rng]]"), ("ddgame", Some("rng")));
    assert_eq!(split_compound("ddgame"), ("ddgame", None));
    assert_eq!(strip_abs("abs:0x7FFF0000"), ("0x7FFF0000", true));
    assert_eq!(strip_abs("0x10"), ("0x10", false));
}

#[test]
fn arrow_chains() {
    assert_eq!(split_arrows("0x7A0884->0xA0->0x2C"), vec!["0x7A0884", "0xA0", "0x2C"]);
    assert_eq!(split_arrows("ddgame"), vec!["ddgame"]);
    assert_eq!(split_arrows("a-->b"), vec!["a-", "b"]);
    assert_eq!(split_arrows("a->"), vec!["a", ""]);
}

#[test]
fn field_offsets_fold_into_the_previous_step() {
    // ddgame->task_land: base + 0x54C, then dereference with no offset.
    assert_eq!(fold_segments(0x1000, &vec![ChainSegment::FieldOffset(0x54C)]), (0x154C, vec![0]));
    // Hex offsets pass through.
    assert_eq!(
        fold_segments(0x7A0884, &vec![ChainSegment::HexOffset(0xA0), ChainSegment::HexOffset(0x2C)]),
        (0x7A0884, vec![0xA0, 0x2C])
    );
    // A field after a hex step adds to that step.
    assert_eq!(
        fold_segments(0x10, &vec![ChainSegment::HexOffset(0x8), ChainSegment::FieldOffset(0x4)]),
        (0x10, vec![0xC, 0])
    );
    assert_eq!(
        fold_segments(u32::MAX, &vec![ChainSegment::FieldOffset(2)]),
        (1, vec![0])
    );
}

#[test]
fn address_expressions() {
    assert_eq!(
        build_address_expr(0x10, false, &vec![], false),
        AddressExpr::Simple { addr: 0x10, absolute: false }
    );
    assert_eq!(
        build_address_expr(0x10, true, &vec![ChainSegment::HexOffset(4)], true),
        AddressExpr::Chain { addr: 0x10, chain: vec![4], absolute: true }
    );
}

#[test]
fn frames_announce_their_length() {
    let f = frame_bytes(&[9, 8, 7]);
    assert_eq!(f, vec![3, 0, 0, 0, 9, 8, 7]);
    assert_eq!(frame_payload_len([3, 0, 0, 0]), Ok(3));
    assert_eq!(frame_payload_len([0, 0, 0x80, 0]), Ok(MAX_FRAME_SIZE));
    assert_eq!(frame_payload_len([1, 0, 0x80, 0]), Err(FrameError::TooLarge));
    let header = [f[0], f[1], f[2], f[3]];
    assert_eq!(frame_payload_len(header), Ok(3));
}

#[test]
fn log_keeps_the_latest_entries() {
    let mut log = LogBuffer::new();
    let t = Instant::now();
    for i in 0..(LOG_CAPACITY + 2) {
        push(&mut log, t, format!("m{i}"));
    }
    assert_eq!(log.entries.len(), LOG_CAPACITY);
    let last = snapshot(&log, 2);
    assert_eq!(last.len(), 2);
    assert_eq!(last[0].1, format!("m{}", LOG_CAPACITY));
    assert_eq!(last[1].1, format!("m{}", LOG_CAPACITY + 1));
    let all = snapshot(&log, 10_000);
    assert_eq!(all.len(), LOG_CAPACITY);
    assert_eq!(all[0].1, "m2");
    clear(&mut log);
    assert!(snapshot(&log, 5).is_empty());
}

#[test]
fn snapshot_text_helpers() {
    let mut w = String::from("x");
    write_indent(&mut w, 3);
    assert_eq!(w, "x      ");
    assert_eq!(fmt_ptr(0), "null");
    assert_eq!(fmt_ptr(0x1234), "<ptr>");
    assert_eq!(fmt_ptr32(0), "null");
    assert_eq!(fmt_ptr32(1), "<ptr>");
}

#[test]
fn record_fields_decode_encode_and_check() {
    let layout = vec![
        mk_field(1, false, 0, 5, 0, 0, 0, 0, 0, false),
        mk_field(2, true, -100, 100, 0, 0, 0, 0, 0, false),
        mk_field(1, false, 0, 0, 2, 0, 0x80, 0, 0, false),
    ];
    let bytes = [3u8, 0x9C, 0xFF, 0x80];
    let vals = decode_fields_from(&layout, &bytes, 0).unwrap();
    assert_eq!(vals, vec![3, -100, 0x80]);
    let mut out = vec![0xEE];
    encode_fields_into(&layout, &vals, &mut out);
    assert_eq!(out, vec![0xEE, 3, 0x9C, 0xFF, 0x80]);
    assert_eq!(decode_fields_from(&layout, &bytes[..3], 0), Err(LayoutError::Incomplete));
    assert_eq!(decode_fields_from(&layout, &[6, 0, 0, 0], 0), Err(LayoutError::Assertion));
    assert_eq!(decode_fields_from(&layout, &[1, 0, 0, 1], 0), Err(LayoutError::Parse));
    assert_eq!(first_error_of(&layout, &vec![1, 500, 0x80]), Some(LayoutError::Assertion));
    assert_eq!(first_error_of(&layout, &vec![1, 5, 0x80]), None);
    assert_eq!(field_error_of(&layout[2], 1), Some(LayoutError::Parse));
}

#[test]
fn hex_text_padding() {
    let mut w = String::new();
    push_hex(&mut w, 0xABC, 2);
    w.push('|');
    push_hex(&mut w, 5, 4);
    w.push('|');
    push_hex(&mut w, 0, 1);
    w.push('|');
    push_hex(&mut w, u64::MAX, 8);
    assert_eq!(w, format!("ABC|0005|0|{:08X}", u64::MAX));
}

#[test]
fn raw_region_dump() {
    let data: Vec<u8> = (0..18).collect();
    let is_ptr = [false, true, false, false];
    let mut w = String::new();
    write_raw_region(&mut w, &data, &is_ptr, 1);
    assert_eq!(w, "  +0000: 03020100 [ptr---] 0B0A0908 0F0E0D0C\n  +0010: 1011\n");
    let mut empty = String::new();
    write_raw_region(&mut empty, &[], &[], 0);
    assert!(empty.is_empty());
}

#[test]
fn hex_dump_row_pads_short_chunks() {
    assert_eq!(
        hex_dump_line(0x10, b"AB\x00"),
        "00000010  41 42 00                                          |AB.|"
    );
}

#[test]
fn hex_dump_splits_into_rows_of_sixteen() {
    let mut data: Vec<u8> = (0x41..0x51).collect();
    data.push(0x7f);
    let rows = hex_dump_lines(&data);
    assert_eq!(
        rows,
        vec![
            "00000000  41 42 43 44 45 46 47 48  49 4A 4B 4C 4D 4E 4F 50  |ABCDEFGHIJKLMNOP|".to_string(),
            "00000010  7F                                                |.|".to_string(),
        ]
    );
    assert!(hex_dump_lines(&[]).is_empty());
}

#[test]
fn pointer_lines_pad_the_kind() {
    let p = PointerInfo {
        offset: 8,
        raw_value: 0x0066_40EC,
        ghidra_value: 0x0066_40EC,
        kind: PointerKind::Code,
        detail: None,
    };
    assert_eq!(pointer_line(&p), "  +0x008  0x006640EC  CODE    ghidra:0x006640EC");
    let q = PointerInfo {
        offset: 0x1A4,
        raw_value: 0x1234,
        ghidra_value: 0x1234,
        kind: PointerKind::Vtable,
        detail: Some("CTaskWorm".to_string()),
    };
    assert_eq!(pointer_line(&q), "  +0x1A4  0x00001234  VTABLE  ghidra:0x00001234  CTaskWorm");
}

#[test]
fn pointer_heuristic_checks_image_then_probe() {
    let sec = ImageSections { start: 0x40_1000, end: 0x80_0000 };
    assert!(is_likely_pointer(0x40_2000, 0x1000, sec, false));
    assert!(!is_likely_pointer(0x50, 0, sec, true));
    assert!(is_likely_pointer(0x200_0000, 0, sec, true));
    assert!(!is_likely_pointer(0x200_0000, 0, sec, false));
    assert!(!is_likely_pointer(0x2_0000, 0, sec, true));
    let mut data = 0x40_2000u32.to_le_bytes().to_vec();
    data.extend_from_slice(&0x10u32.to_le_bytes());
    data.push(0xFF);
    assert_eq!(pointer_flags(&data, 0x1000, sec, &[false, false]), vec![true, false]);
}

#[test]
fn names_resolve_from_the_servers_answers() {
    assert_eq!(resolve_offset("0x10", Some(5)), Some(16));
    assert_eq!(resolve_offset("hp", Some(5)), Some(5));
    assert_eq!(resolve_offset("hp", None), None);
    assert_eq!(resolve_offset("12", None), Some(12));
    assert_eq!(resolve_base("player+8", false, Some(0x1000), 8), Some((0x1008, true)));
    assert_eq!(resolve_base("0x400000+0x10", false, Some(9), 0x10), Some((0x40_0010, false)));
    assert_eq!(resolve_base("zz", false, None, 0), None);
    assert_eq!(resolve_base("ff", true, None, 1), Some((0x100, true)));
    assert_eq!(resolve_chain_segment("hp+4", Some(0x20), 4), Some(ChainSegment::FieldOffset(0x24)));
    assert_eq!(resolve_chain_segment("0x8", Some(1), 0), Some(ChainSegment::HexOffset(8)));
    assert_eq!(resolve_chain_segment("hp", None, 0), None);
}

#[test]
fn capture_view_snaps_the_step_limit() {
    let mut v = StepView {
        step_mode: false,
        step_limit: 0,
        show_capture_window: false,
        last_capture_len: None,
        selected_capture: Some(3),
    };
    assert_eq!(on_capture(&mut v, 40), None);
    assert!(v.show_capture_window);
    assert_eq!(v.selected_capture, None);
    v.show_capture_window = false;
    assert_eq!(on_step_toggle(&mut v, true), Some(40));
    assert_eq!((v.step_limit, v.show_capture_window), (40, true));
    v.step_limit = 12;
    assert_eq!(on_capture(&mut v, 40), None);
    assert_eq!(v.step_limit, 12);
    assert_eq!(on_capture(&mut v, 55), Some(55));
    assert_eq!(v.step_limit, 55);
    assert_eq!(on_step_toggle(&mut v, true), None);
    assert_eq!(on_step_toggle(&mut v, false), None);
    assert!(!v.step_mode);
}
