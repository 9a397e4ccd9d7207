use openwa_core::names::{field_registry_fields, to_screaming_snake};
use openwa_core::vtable_layout::{parse_vtable_attr_args, vtable_layout, AttrError, SlotError, SlotKind};

#[test]
fn sparse_slots_get_gap_fillers() {
    let r = vtable_layout(5, &vec![Some(2), Some(3), Some(4)]).unwrap();
    assert_eq!(
        r,
        vec![SlotKind::Gap, SlotKind::Gap, SlotKind::Named(0), SlotKind::Named(1), SlotKind::Named(2)]
    );
    let unsorted = vtable_layout(4, &vec![Some(3), Some(0)]).unwrap();
    assert_eq!(unsorted, vec![SlotKind::Named(1), SlotKind::Gap, SlotKind::Gap, SlotKind::Named(0)]);
}

#[test]
fn fields_without_slots_take_their_position() {
    let r = vtable_layout(3, &vec![None, None]).unwrap();
    assert_eq!(r, vec![SlotKind::Named(0), SlotKind::Named(1), SlotKind::Gap]);
}

#[test]
fn bad_slot_declarations_are_refused_at_the_first_bad_field() {
    assert_eq!(vtable_layout(5, &vec![Some(1), None]), Err(SlotError::Mixed(1)));
    assert_eq!(vtable_layout(5, &vec![None, Some(1)]), Err(SlotError::Mixed(1)));
    assert_eq!(vtable_layout(5, &vec![Some(5)]), Err(SlotError::OutOfRange(0)));
    assert_eq!(vtable_layout(5, &vec![Some(1), Some(2), Some(1)]), Err(SlotError::Duplicate(2)));
    assert_eq!(vtable_layout(1, &vec![None, None]), Err(SlotError::OutOfRange(1)));
}

#[test]
fn type_names_become_screaming_snake_case() {
    assert_eq!(to_screaming_snake("PaletteVtable"), "PALETTE_VTABLE");
    assert_eq!(to_screaming_snake("DDGame"), "DD_GAME");
    assert_eq!(to_screaming_snake("Palette"), "PALETTE");
    assert_eq!(to_screaming_snake("abc2Def"), "ABC2_DEF");
    assert_eq!(to_screaming_snake("CTaskWorm"), "C_TASK_WORM");
    assert_eq!(to_screaming_snake(""), "");
}

#[test]
fn field_table_leaves_out_unmapped_fields() {
    let names: Vec<String> =
        ["keyboard", "_unknown_04", "rng_state", "_pad_0c", "_padding", "unknown"].iter().map(|s| s.to_string()).collect();
    assert_eq!(field_registry_fields(&names), vec![0, 2, 5]);
    assert!(field_registry_fields(&vec![]).is_empty());
}

#[test]
fn vtable_attribute_text_is_read() {
    let a = parse_vtable_attr_args("size = 5, va = 0x0066_A2E4, class = \"Palette\"").unwrap();
    assert_eq!(a.size, 5);
    assert_eq!(a.va, Some(0x0066_A2E4));
    assert_eq!(a.class.as_deref(), Some("Palette"));
    let b = parse_vtable_attr_args("size=1_000,").unwrap();
    assert_eq!((b.size, b.va, b.class), (1000, None, None));
    let c = parse_vtable_attr_args("class = \"X\", size = 2, size = 3").unwrap();
    assert_eq!(c.size, 3);
}

#[test]
fn bad_vtable_attribute_text_is_refused() {
    assert_eq!(parse_vtable_attr_args("").unwrap_err(), AttrError::MissingSize);
    assert_eq!(parse_vtable_attr_args("va = 1").unwrap_err(), AttrError::MissingSize);
    assert_eq!(parse_vtable_attr_args("name = 1").unwrap_err(), AttrError::UnknownKey(0));
    assert_eq!(parse_vtable_attr_args("size 5").unwrap_err(), AttrError::ExpectedEq(5));
    assert_eq!(parse_vtable_attr_args("size = x").unwrap_err(), AttrError::BadLiteral(7));
    assert_eq!(parse_vtable_attr_args("size = 0x1_0000_0000").unwrap_err(), AttrError::BadLiteral(7));
    assert_eq!(parse_vtable_attr_args("size = 1 va = 2").unwrap_err(), AttrError::ExpectedComma(9));
    assert_eq!(parse_vtable_attr_args("class = Palette").unwrap_err(), AttrError::BadLiteral(8));
}
