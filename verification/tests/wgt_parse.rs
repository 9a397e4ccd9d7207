use openwa_core::wgt::{
    WgtError, WgtFile, CUSTOM_GRAVE_THRESHOLD, FILENAME_LEN, FLAG_BMP_LEN, GRAVE_BMP_LEN,
    PALETTE_LEN, TEAM_NAME_LEN, TEAM_RECORD_LEN_NO_GRAVE, TEAM_RECORD_LEN_WITH_GRAVE,
    WGT_HEADER_SIZE, WORMS_PER_TEAM, WORM_NAME_LEN,
};

fn synth_header(team_count: u8) -> [u8; WGT_HEADER_SIZE] {
    let mut h = [0u8; WGT_HEADER_SIZE];
    h[0..4].copy_from_slice(b"WGT\0");
    h[4] = 0x04;
    h[5] = team_count;
    h
}

fn synth_team_record_no_grave() -> Vec<u8> {
    let mut buf = vec![0u8; TEAM_RECORD_LEN_NO_GRAVE];
    buf[0..5].copy_from_slice(b"Test\0");
    buf[TEAM_NAME_LEN..TEAM_NAME_LEN + 5].copy_from_slice(b"Worm\0");
    buf[TEAM_NAME_LEN + WORM_NAME_LEN * WORMS_PER_TEAM] = 2;
    buf
}

#[test]
fn header_sizes() {
    assert_eq!(WGT_HEADER_SIZE, 11);
    assert_eq!(TEAM_RECORD_LEN_NO_GRAVE, 2032);
    assert_eq!(TEAM_RECORD_LEN_WITH_GRAVE, 2032 + 1824);
}

#[test]
fn parse_zero_team_file() {
    let data = synth_header(0);
    let wgt = WgtFile::from_bytes(&data).unwrap();
    assert_eq!(wgt.teams.len(), 0);
    assert_eq!(wgt.header.unknown_04, 0x04);
}

#[test]
fn parse_single_team_no_grave() {
    let mut data = synth_header(1).to_vec();
    data.extend_from_slice(&synth_team_record_no_grave());
    let wgt = WgtFile::from_bytes(&data).unwrap();
    assert_eq!(wgt.teams.len(), 1);
    let t = &wgt.teams[0];
    assert_eq!(t.name_str(), "Test");
    assert_eq!(t.worm_names_iter()[0], "Worm");
    assert_eq!(t.control, 2);
    assert!(t.custom_grave.is_none());
}

#[test]
fn parse_team_with_custom_grave() {
    let mut data = synth_header(1).to_vec();
    let mut team = vec![0u8; TEAM_RECORD_LEN_WITH_GRAVE];
    team[0..3].copy_from_slice(b"CG\0");
    let grave_id_off = TEAM_NAME_LEN
        + WORM_NAME_LEN * WORMS_PER_TEAM
        + 1
        + FILENAME_LEN
        + 1
        + FILENAME_LEN
        + 1;
    team[grave_id_off] = 0xFF;
    let custom_grave_off = grave_id_off + 1;
    team[custom_grave_off..custom_grave_off + 3].copy_from_slice(b"gv\0");
    data.extend_from_slice(&team);
    let wgt = WgtFile::from_bytes(&data).unwrap();
    let t = &wgt.teams[0];
    assert_eq!(t.name_str(), "CG");
    assert_eq!(t.grave_id, 0xFF);
    let cg = t.custom_grave.as_ref().expect("custom grave present");
    assert_eq!(&cg.filename[..3], b"gv\0");
    assert_eq!(cg.palette.len(), PALETTE_LEN);
    assert_eq!(cg.bitmap.len(), GRAVE_BMP_LEN);
}

#[test]
fn bad_magic_rejected() {
    let mut data = synth_header(0);
    data[0] = b'X';
    assert!(matches!(
        WgtFile::from_bytes(&data),
        Err(WgtError::BadMagic(_))
    ));
}

#[test]
fn truncated_at_team_reports_index() {
    let mut data = synth_header(2).to_vec();
    data.extend_from_slice(&synth_team_record_no_grave());
    let err = WgtFile::from_bytes(&data).unwrap_err();
    assert!(matches!(err, WgtError::Truncated { team_index: 1, .. }));
}

#[test]
fn short_header_rejected() {
    let data = [0u8; 4];
    assert!(matches!(
        WgtFile::from_bytes(&data),
        Err(WgtError::TooShortHeader { len: 4 })
    ));
}

#[test]
fn truncation_reports_the_field_that_does_not_fit() {
    // One team, cut inside the stats block (which starts at offset 222 of the record).
    let mut data = synth_header(1).to_vec();
    data.extend_from_slice(&synth_team_record_no_grave()[..300]);
    assert_eq!(
        WgtFile::from_bytes(&data).unwrap_err(),
        WgtError::Truncated { team_index: 0, need: 304, have: 300 - 222 }
    );
    // Cut in the middle of the team name.
    let mut data = synth_header(1).to_vec();
    data.extend_from_slice(&[b'A'; 5]);
    assert_eq!(
        WgtFile::from_bytes(&data).unwrap_err(),
        WgtError::Truncated { team_index: 0, need: 17, have: 5 }
    );
    // Bad magic carries the bytes found.
    let mut data = synth_header(0);
    data[0..4].copy_from_slice(b"ABCD");
    assert_eq!(WgtFile::from_bytes(&data).unwrap_err(), WgtError::BadMagic(*b"ABCD"));
}

#[test]
fn header_cheats_and_trailer_fields_are_decoded() {
    let mut data = synth_header(1).to_vec();
    data[6] = 1;
    data[7] = 2;
    data[8] = 4;
    data[9] = 9;
    data[10] = 0x0A;
    let mut team = synth_team_record_no_grave();
    // Trailer: dm_rank at 1922, training times from 1923.
    team[1922] = 0xFF;
    team[1923..1927].copy_from_slice(&0x1234_5678u32.to_le_bytes());
    team[TEAM_RECORD_LEN_NO_GRAVE - 1] = 0x77;
    team[222 + 304 + 32 + 1024] = 5; // first flag bitmap byte
    data.extend_from_slice(&team);
    let wgt = WgtFile::from_bytes(&data).unwrap();
    assert_eq!(wgt.header.utility_cheats, 1);
    assert_eq!(wgt.header.weapon_cheats, 2);
    assert_eq!(wgt.header.game_cheats, 4);
    assert_eq!(wgt.header.indestructible_full_wormage, 9);
    assert_eq!(wgt.header.unknown_0a, 0x0A);
    let t = &wgt.teams[0];
    assert_eq!(t.dm_rank, -1);
    assert_eq!(t.training_times[0], 0x1234_5678);
    assert_eq!(t.unknown_tail, 0x77);
    assert_eq!(t.flag.bitmap.len(), FLAG_BMP_LEN);
    assert_eq!(t.flag.bitmap[0], 5);
    assert!(t.grave_id < CUSTOM_GRAVE_THRESHOLD);
}

#[test]
fn names_decode_windows_1252() {
    let mut data = synth_header(1).to_vec();
    let mut team = synth_team_record_no_grave();
    team[0..4].copy_from_slice(&[0x80, b'x', 0xE9, 0]);
    data.extend_from_slice(&team);
    let wgt = WgtFile::from_bytes(&data).unwrap();
    assert_eq!(wgt.teams[0].name_str(), "\u{20AC}x\u{E9}");
    assert_eq!(wgt.teams[0].worm_names_iter()[1], "");
}

#[test]
fn error_messages_name_the_problem() {
    assert_eq!(
        WgtError::TooShortHeader { len: 3 }.message(),
        "file too short (3 bytes, need at least 11)"
    );
    assert_eq!(
        WgtError::BadMagic([0x57, 0x0A, 0xFF, 0x00]).message(),
        "bad magic: 57 0A FF 00 (expected WGT\\0)"
    );
    assert_eq!(
        WgtError::Truncated { team_index: 2, need: 130, have: 7 }.message(),
        "truncated at team 2: need 130 more bytes, have 7"
    );
}
