use openwa_core::fixed::Fixed;
use openwa_core::vec2::Vec2;

#[test]
fn layout_matches_two_adjacent_i32s() {
    assert_eq!(core::mem::size_of::<Vec2>(), 8);
    assert_eq!(core::mem::align_of::<Vec2>(), 4);
    let v = Vec2::from_raw(1, 2);
    assert_eq!(v.x.to_raw(), 1);
    assert_eq!(v.y.to_raw(), 2);
}

#[test]
fn reinterpret_two_adjacent_fixed_as_vec2() {
    // Two adjacent fixed-point fields read and written through a Vec2 view.
    let mut p = [Fixed::from_int(3), Fixed::from_int(5)];
    let mut v = Vec2::new(p[0], p[1]);
    assert_eq!(v.x, Fixed::from_int(3));
    assert_eq!(v.y, Fixed::from_int(5));
    v.x = Fixed::from_int(7);
    p[0] = v.x;
    assert_eq!(p[0], Fixed::from_int(7));
}

#[test]
fn snap_to_8way_matches_wa_semantics() {
    let f = Fixed::from_raw;

    assert_eq!(Vec2::new(f(0x8000), f(0)).snap_to_8way(), Vec2::zero());
    assert_eq!(Vec2::new(f(-0x8000), f(0)).snap_to_8way(), Vec2::zero());
    assert_eq!(
        Vec2::new(f(0x8001), f(0)).snap_to_8way(),
        Vec2::new(Fixed::one(), Fixed::zero())
    );
    assert_eq!(
        Vec2::new(f(-0x8001), f(0)).snap_to_8way(),
        Vec2::new(-Fixed::one(), Fixed::zero())
    );
    assert_eq!(
        Vec2::new(f(0x10000), f(0)).snap_to_8way(),
        Vec2::new(Fixed::one(), Fixed::zero())
    );
    assert_eq!(
        Vec2::new(f(0x10000), f(0x10000)).snap_to_8way(),
        Vec2::from_raw(0x9999, 0x9999)
    );
    assert_eq!(
        Vec2::new(f(-0x10000), f(0x10000)).snap_to_8way(),
        Vec2::from_raw(-0x9999, 0x9999)
    );
}

#[test]
fn arithmetic_is_componentwise() {
    let a = Vec2::from_raw(0x10000, 0x20000);
    let b = Vec2::from_raw(0x40000, 0x80000);
    assert_eq!((a + b), Vec2::from_raw(0x50000, 0xA0000));
    assert_eq!((b - a), Vec2::from_raw(0x30000, 0x60000));
    assert_eq!((a * 4), Vec2::from_raw(0x40000, 0x80000));
    assert_eq!(
        a.mul_raw(Fixed::from_int(2)),
        Vec2::from_raw(0x20000, 0x40000)
    );
}

#[test]
fn fixed_arithmetic_wraps_and_scales() {
    assert_eq!(Fixed::from_int(1), Fixed::one());
    assert_eq!(Fixed::from_raw(i32::MAX) + Fixed::from_raw(1), Fixed::from_raw(i32::MIN));
    assert_eq!(Fixed::from_raw(i32::MIN).wrapping_sub(Fixed::from_raw(1)), Fixed::from_raw(i32::MAX));
    // 1.5 * 2.5 = 3.75
    assert_eq!(Fixed::from_raw(0x18000).mul_raw(Fixed::from_raw(0x28000)), Fixed::from_raw(0x3C000));
    // -0.5 * 0.5 = -0.25 (arithmetic shift rounds toward negative infinity)
    assert_eq!(Fixed::from_raw(-0x8000).mul_raw(Fixed::from_raw(0x8000)), Fixed::from_raw(-0x4000));
    assert_eq!(Fixed::from_raw(-1).mul_raw(Fixed::from_raw(1)), Fixed::from_raw(-1));
    assert_eq!(-Fixed::from_raw(i32::MIN), Fixed::from_raw(i32::MIN));
}

#[test]
fn vec2_negation_and_in_place_ops() {
    let mut a = Vec2::from_raw(5, -7);
    assert_eq!(-a, Vec2::from_raw(-5, 7));
    a.add_assign(Vec2::from_raw(1, 1));
    assert_eq!(a, Vec2::from_raw(6, -6));
    a.sub_assign(Vec2::from_raw(6, -6));
    assert_eq!(a, Vec2::zero());
    assert_eq!(
        Vec2::from_raw(i32::MAX, 0).wrapping_add(Vec2::from_raw(1, 0)),
        Vec2::from_raw(i32::MIN, 0)
    );
    assert_eq!(Vec2::from_raw(0x10000, 0) * Fixed::from_raw(0x8000), Vec2::from_raw(0x8000, 0));
}
