use openwa_core::layout::LayoutError;
use openwa_core::scheme::{
    Ammunition, BlockRoofing, ExtendedOptions, HealthCratesCurePoison, KeepControlAfterSkimming,
    PhasedWorms, RopeRollDrops, RubberWormGravityType, RubberwormOptions, Scheme, SchemeOptions,
    SchemeVersion, SheepHeavensGate, Skipwalking, StandardWeapons, SuperWeapons, TriState,
    WeaponSettings, SCHEME_PAYLOAD_V3,
};

fn scheme_bytes(version: SchemeVersion, payload: &[u8]) -> Vec<u8> {
    let mut data = Vec::new();
    data.extend_from_slice(b"SCHM");
    data.push(version.code());
    data.extend_from_slice(payload);
    data
}

fn v1_payload(options: SchemeOptions, weapons: StandardWeapons) -> Vec<u8> {
    let mut payload = Vec::new();
    payload.extend_from_slice(&options.to_bytes().unwrap());
    payload.extend_from_slice(&weapons.to_bytes().unwrap());
    payload
}

fn v2_payload(
    options: SchemeOptions,
    weapons: StandardWeapons,
    super_weapons: SuperWeapons,
) -> Vec<u8> {
    let mut payload = v1_payload(options, weapons);
    payload.extend_from_slice(&super_weapons.to_bytes().unwrap());
    payload
}

fn default_v1_payload() -> Vec<u8> {
    v1_payload(SchemeOptions::default(), StandardWeapons::default())
}

fn default_v2_payload() -> Vec<u8> {
    v2_payload(
        SchemeOptions::default(),
        StandardWeapons::default(),
        SuperWeapons::default(),
    )
}

fn canonical_payload_len() -> usize {
    Scheme::default().payload_bytes().len()
}

fn canonical_file_len() -> usize {
    Scheme::default().to_bytes().len()
}

fn make_valid_extended_options() -> Vec<u8> {
    ExtendedOptions::default_bytes().to_vec()
}

#[test]
fn ammunition_maps_raw_values() {
    let finite = WeaponSettings::try_from([9, 0, 0, 0].as_slice()).unwrap();
    assert_eq!(finite.ammo, Ammunition::Finite(9));

    let infinite_10 = WeaponSettings::try_from([10, 0, 0, 0].as_slice()).unwrap();
    assert_eq!(infinite_10.ammo, Ammunition::Infinite);

    let infinite_high = WeaponSettings::try_from([0x80, 0, 0, 0].as_slice()).unwrap();
    assert_eq!(infinite_high.ammo, Ammunition::Infinite);

    let weapon = WeaponSettings {
        ammo: Ammunition::finite(7).unwrap(),
        ..Default::default()
    };
    assert_eq!(weapon.to_bytes().unwrap()[0], 7);

    let weapon = WeaponSettings {
        ammo: Ammunition::Infinite,
        ..Default::default()
    };
    assert_eq!(weapon.to_bytes().unwrap()[0], 10);

    let weapon = WeaponSettings {
        ammo: Ammunition::Finite(11),
        ..Default::default()
    };
    assert!(weapon.to_bytes().is_err());
}

#[test]
fn parse_v1_synthetic() {
    let data = scheme_bytes(SchemeVersion::V1, &default_v1_payload());
    let scheme = Scheme::try_from(data.as_slice()).unwrap();
    assert_eq!(scheme.to_bytes()[4], SchemeVersion::V3.code());
    assert_eq!(scheme.super_weapons, SuperWeapons::default());
    assert_eq!(scheme.extended_options, ExtendedOptions::default());
    assert_eq!(
        Scheme::try_from(scheme.to_bytes().as_slice()).unwrap(),
        scheme
    );
}

#[test]
fn parse_v2_synthetic() {
    let data = scheme_bytes(SchemeVersion::V2, &default_v2_payload());
    let scheme = Scheme::try_from(data.as_slice()).unwrap();
    assert_eq!(scheme.to_bytes()[4], SchemeVersion::V3.code());
    assert_eq!(scheme.extended_options, ExtendedOptions::default());
    assert_eq!(
        Scheme::try_from(scheme.to_bytes().as_slice()).unwrap(),
        scheme
    );
}

#[test]
fn roundtrip_synthetic() {
    let data = scheme_bytes(SchemeVersion::V1, &default_v1_payload());
    let scheme = Scheme::try_from(data.as_slice()).unwrap();
    assert_eq!(scheme.to_bytes()[4], SchemeVersion::V3.code());
    assert_eq!(
        Scheme::try_from(scheme.to_bytes().as_slice()).unwrap(),
        scheme
    );
}

#[test]
fn error_too_short() {
    assert!(Scheme::try_from(b"SCH".as_slice()).is_err());
}

#[test]
fn error_bad_magic() {
    let mut data = vec![b'N', b'O', b'P', b'E', 0x01];
    data.extend_from_slice(&default_v1_payload());
    assert!(matches!(
        Scheme::try_from(data.as_slice()),
        Err(LayoutError::Parse)
    ));
}

#[test]
fn error_payload_mismatch() {
    // v1 header but only 10 bytes of payload
    let mut data = Vec::new();
    data.extend_from_slice(b"SCHM");
    data.push(0x01);
    data.extend_from_slice(&[0; 10]);

    assert!(matches!(
        Scheme::try_from(data.as_slice()),
        Err(LayoutError::Incomplete)
    ));
}

#[test]
fn v3_variable_length_padded_with_defaults() {
    let mut super_weapons = SuperWeapons::default();
    super_weapons.armageddon.crate_probability = 0xAA;
    let payload = v2_payload(
        SchemeOptions::default(),
        StandardWeapons::default(),
        super_weapons.clone(),
    );
    let data = scheme_bytes(SchemeVersion::V3, &payload);

    let scheme = Scheme::try_from(data.as_slice()).expect("should accept short V3");
    assert_eq!(scheme.super_weapons, super_weapons);
    assert_eq!(scheme.extended_options, ExtendedOptions::default());
}

#[test]
fn v3_full_length_accepted() {
    let mut payload = default_v2_payload();
    payload.extend_from_slice(&ExtendedOptions::default_bytes());
    let data = scheme_bytes(SchemeVersion::V3, &payload);

    let scheme = Scheme::try_from(data.as_slice()).expect("should accept full V3");
    assert_eq!(scheme.extended_options, ExtendedOptions::default());
}

#[test]
fn v3_too_short_rejected() {
    let data = scheme_bytes(SchemeVersion::V3, &default_v1_payload());

    assert!(Scheme::try_from(data.as_slice()).is_err());
}

#[test]
fn default_scheme_is_valid_v3() {
    let scheme = Scheme::default();
    assert_eq!(scheme.extended_options, ExtendedOptions::default());
    assert!(ExtendedOptions::validate_bytes(
        &ExtendedOptions::default_bytes()
    ));
    assert_eq!(scheme.payload_bytes().len(), SCHEME_PAYLOAD_V3);
}

#[test]
fn from_payload_bytes_roundtrips_canonical_payload() {
    let scheme = Scheme::default();

    assert_eq!(
        Scheme::from_payload_bytes(&scheme.payload_bytes()).unwrap(),
        scheme
    );
    assert!(Scheme::from_payload_bytes(&[]).is_err());
}

#[test]
fn payload_bytes_pads_legacy_inputs_for_runtime() {
    let mut standard_weapons = StandardWeapons::default();
    standard_weapons.damage_x2.crate_probability = 0xAA;
    let v1 = scheme_bytes(
        SchemeVersion::V1,
        &v1_payload(SchemeOptions::default(), standard_weapons.clone()),
    );
    let v1 = Scheme::try_from(v1.as_slice()).unwrap();
    assert_eq!(v1.weapons, standard_weapons);
    assert_eq!(v1.super_weapons, SuperWeapons::default());
    assert_eq!(v1.extended_options, ExtendedOptions::default());
    assert_eq!(v1.payload_bytes().len(), SCHEME_PAYLOAD_V3);

    let mut super_weapons = SuperWeapons::default();
    super_weapons.armageddon.crate_probability = 0xBB;
    let v2 = scheme_bytes(
        SchemeVersion::V2,
        &v2_payload(
            SchemeOptions::default(),
            StandardWeapons::default(),
            super_weapons.clone(),
        ),
    );
    let v2 = Scheme::try_from(v2.as_slice()).unwrap();
    assert_eq!(v2.super_weapons, super_weapons);
    assert_eq!(v2.extended_options, ExtendedOptions::default());
    assert_eq!(v2.payload_bytes().len(), SCHEME_PAYLOAD_V3);
}

#[test]
fn v3_writes_through_last_non_default_extended_byte() {
    let mut scheme = Scheme::default();
    scheme.extended_options.double_time_stack_limit = 2;

    assert_eq!(scheme.payload_bytes().last(), Some(&2));
}

#[test]
fn extended_option_nested_defaults_match_rom_defaults() {
    let defaults = ExtendedOptions::default();

    assert_eq!(TriState::default(), TriState::Default);
    assert_eq!(PhasedWorms::default(), PhasedWorms::Off);
    assert_eq!(RopeRollDrops::default(), RopeRollDrops::Disabled);
    assert_eq!(
        KeepControlAfterSkimming::default(),
        KeepControlAfterSkimming::LoseControl
    );
    assert_eq!(Skipwalking::default(), Skipwalking::Possible);
    assert_eq!(BlockRoofing::default(), BlockRoofing::Allow);
    assert_eq!(
        RubberWormGravityType::default(),
        RubberWormGravityType::Unmodified
    );
    assert_eq!(
        HealthCratesCurePoison::default(),
        HealthCratesCurePoison::CollectingWormTeam
    );
    assert_eq!(SheepHeavensGate::default().bits(), 0x07);
    assert!(
        SheepHeavensGate::default().contains(SheepHeavensGate::SHEEP_EXPLODE_FROM_ALL_CRATES)
    );
    assert!(SheepHeavensGate::default().contains(SheepHeavensGate::EXTENDED_SHEEP_FUSE_TIME));
    assert!(
        SheepHeavensGate::default()
            .contains(SheepHeavensGate::BOOST_SHEEP_WEAPON_CRATE_PROBABILITY)
    );
    assert_eq!(RubberwormOptions::default(), defaults.rubberworm);
    assert_eq!(SheepHeavensGate::default(), defaults.sheep_heavens_gate);
}

#[test]
fn extended_options_default_bytes_roundtrip() {
    let defaults = ExtendedOptions::default();
    assert_eq!(
        defaults.to_bytes().unwrap(),
        ExtendedOptions::default_bytes()
    );
}

#[test]
fn serialization_always_writes_v3() {
    let mut scheme = Scheme::default();
    scheme.super_weapons.freeze.ammo = Ammunition::finite(7).unwrap();
    scheme.extended_options.double_time_stack_limit = 2;

    assert_eq!(scheme.payload_bytes().len(), canonical_payload_len());
    assert_eq!(scheme.to_bytes().len(), canonical_file_len());
    assert_eq!(scheme.to_bytes()[4], SchemeVersion::V3.code());
}

#[test]
fn validate_valid_extended_options() {
    let b = make_valid_extended_options();
    assert!(ExtendedOptions::validate_bytes(&b));
}

#[test]
fn validate_rejects_bad_data_version() {
    let mut b = make_valid_extended_options();
    b[0x00] = 1; // data_version must be 0
    assert!(!ExtendedOptions::validate_bytes(&b));
}

#[test]
fn validate_rejects_bad_gravity() {
    let mut b = make_valid_extended_options();
    // gravity = 0 (below minimum of 1)
    b[0x08..0x0C].copy_from_slice(&0i32.to_le_bytes());
    assert!(!ExtendedOptions::validate_bytes(&b));

    // gravity = negative
    b[0x08..0x0C].copy_from_slice(&(-1i32).to_le_bytes());
    assert!(!ExtendedOptions::validate_bytes(&b));
}

#[test]
fn validate_rejects_bad_bool() {
    let mut b = make_valid_extended_options();
    // unrestrict_rope at offset 0x12: value 2 is not a valid bool
    b[0x12] = 2;
    assert!(!ExtendedOptions::validate_bytes(&b));
}

#[test]
fn validate_rejects_bad_tristate() {
    let mut b = make_valid_extended_options();
    // explosions_push_all at offset 0x26: must be 0, 1, or 0x80
    b[0x26] = 2;
    assert!(!ExtendedOptions::validate_bytes(&b));

    // 0x80 should be valid
    b[0x26] = 0x80;
    assert!(ExtendedOptions::validate_bytes(&b));
}

#[test]
fn validate_rejects_bad_skipwalking() {
    let mut b = make_valid_extended_options();
    // skipwalking at 0x49: must be -1, 0, or 1
    b[0x49] = 2u8; // 2 as i8 is invalid
    assert!(!ExtendedOptions::validate_bytes(&b));

    // -1 (0xFF) should be valid
    b[0x49] = 0xFF;
    assert!(ExtendedOptions::validate_bytes(&b));
}

#[test]
fn validate_rejects_zero_petrol_touch_decay() {
    let mut b = make_valid_extended_options();
    b[0x31] = 0; // must be nonzero
    assert!(!ExtendedOptions::validate_bytes(&b));
}

#[test]
fn validate_rejects_bad_sheep_heavens_gate() {
    let mut b = make_valid_extended_options();
    b[0x6A] = 0; // must include at least one bit
    assert!(!ExtendedOptions::validate_bytes(&b));

    b[0x6A] = 8; // unknown bit
    assert!(!ExtendedOptions::validate_bytes(&b));

    b[0x6A] = 7; // all known bits
    assert!(ExtendedOptions::validate_bytes(&b));
}

#[test]
fn validate_rejects_negative_speeds() {
    let mut b = make_valid_extended_options();
    // max_projectile_speed at 0x34: must be positive
    b[0x34..0x38].copy_from_slice(&(-1i32).to_le_bytes());
    assert!(!ExtendedOptions::validate_bytes(&b));
}

#[test]
fn validate_game_engine_speed_range() {
    let mut b = make_valid_extended_options();

    // Too low (below 0x1000)
    b[0x40..0x44].copy_from_slice(&0xFFFi32.to_le_bytes());
    assert!(!ExtendedOptions::validate_bytes(&b));

    // Minimum valid (0x1000)
    b[0x40..0x44].copy_from_slice(&0x1000i32.to_le_bytes());
    assert!(ExtendedOptions::validate_bytes(&b));

    // Maximum valid (0x800000)
    b[0x40..0x44].copy_from_slice(&0x80_0000i32.to_le_bytes());
    assert!(ExtendedOptions::validate_bytes(&b));

    // Too high (0x800001)
    b[0x40..0x44].copy_from_slice(&0x80_0001i32.to_le_bytes());
    assert!(!ExtendedOptions::validate_bytes(&b));
}

#[test]
fn validate_rom_defaults_pass() {
    // ROM defaults (byte-exact from WA.exe at 0x649AB8) must pass validation.
    assert!(ExtendedOptions::validate_bytes(
        &ExtendedOptions::default_bytes()
    ));
}

#[test]
fn extended_errors_name_the_failed_check() {
    let mut b = make_valid_extended_options();
    b[0x12] = 2;
    assert_eq!(ExtendedOptions::from_bytes(&b), Err(LayoutError::Parse));
    let mut b = make_valid_extended_options();
    b[0x31] = 0;
    assert_eq!(ExtendedOptions::from_bytes(&b), Err(LayoutError::Assertion));
    assert_eq!(ExtendedOptions::from_bytes(&b[..109]), Err(LayoutError::Parse));
    let mut e = ExtendedOptions::default();
    e.rw_kaos_mod = 6;
    assert_eq!(e.to_bytes(), Err(LayoutError::Assertion));
}

#[test]
fn trailing_bytes_after_v1_payload_rejected() {
    let mut payload = default_v1_payload();
    payload.push(0);
    let data = scheme_bytes(SchemeVersion::V1, &payload);
    assert_eq!(Scheme::try_from(data.as_slice()), Err(LayoutError::Parse));
    let mut payload = default_v2_payload();
    payload.extend_from_slice(&[0u8; 111]);
    let data = scheme_bytes(SchemeVersion::V3, &payload);
    assert_eq!(Scheme::try_from(data.as_slice()), Err(LayoutError::Parse));
    let data = scheme_bytes(SchemeVersion::V2, &default_v2_payload());
    let mut bad = data.clone();
    bad[4] = 4;
    assert_eq!(Scheme::try_from(bad.as_slice()), Err(LayoutError::Parse));
}

#[test]
fn options_are_stored_in_field_order() {
    let mut options = SchemeOptions::default();
    options.turn_time = 45;
    options.weapon_crate_probability = -1;
    let bytes = options.to_bytes().unwrap();
    assert_eq!(bytes.len(), 36);
    assert_eq!(bytes[22], 45);
    assert_eq!(bytes[12], 0xFF);
}
