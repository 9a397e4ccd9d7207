//! Pairs of 16.16 fixed-point values (positions, velocities).
use vstd::prelude::*;

use crate::fixed::{trunc_div, wrap_i32, Fixed};

verus! {

/// Two adjacent fixed-point values, laid out like two adjacent `i32`s.
#[derive(Clone, Copy, PartialEq, Eq, Structural, Hash, Default, Debug)]
pub struct Vec2 {
    pub x: Fixed,
    pub y: Fixed,
}

/// Per-axis snapping to `{-1, 0, +1}` (raw 16.16) with a closed half-unit
/// dead zone around zero.
pub open spec fn snap_axis(v: i32) -> i32 {
    if v < -0x8000 {
        -0x10000i32
    } else if v <= 0x8000 {
        0
    } else {
        0x10000
    }
}

/// The result of snapping a vector to one of the eight compass directions:
/// each axis is snapped, and diagonals are scaled by 3/5 (truncating toward
/// zero).
pub open spec fn snap_8way(v: Vec2) -> Vec2 {
    let sx = snap_axis(v.x.0);
    let sy = snap_axis(v.y.0);
    if sx != 0 && sy != 0 {
        Vec2 { x: Fixed(trunc_div(sx * 3, 5) as i32), y: Fixed(trunc_div(sy * 3, 5) as i32) }
    } else {
        Vec2 { x: Fixed(sx), y: Fixed(sy) }
    }
}

impl Vec2 {
    /// The zero vector.
    pub fn zero() -> (r: Vec2)
        ensures
            r.x.0 == 0 && r.y.0 == 0,
    {
        Vec2 { x: Fixed(0), y: Fixed(0) }
    }

    pub fn new(x: Fixed, y: Fixed) -> (r: Vec2)
        ensures
            r.x == x && r.y == y,
    {
        Vec2 { x, y }
    }

    /// Build from two raw 16.16 values.
    pub fn from_raw(x: i32, y: i32) -> (r: Vec2)
        ensures
            r.x.0 == x && r.y.0 == y,
    {
        Vec2 { x: Fixed(x), y: Fixed(y) }
    }

    /// Component-wise wrapping addition.
    pub fn wrapping_add(self, rhs: Vec2) -> (r: Vec2)
        ensures
            r.x.0 == wrap_i32(self.x.0 + rhs.x.0),
            r.y.0 == wrap_i32(self.y.0 + rhs.y.0),
    {
        Vec2 { x: self.x.wrapping_add(rhs.x), y: self.y.wrapping_add(rhs.y) }
    }

    /// Component-wise wrapping subtraction.
    pub fn wrapping_sub(self, rhs: Vec2) -> (r: Vec2)
        ensures
            r.x.0 == wrap_i32(self.x.0 - rhs.x.0),
            r.y.0 == wrap_i32(self.y.0 - rhs.y.0),
    {
        Vec2 { x: self.x.wrapping_sub(rhs.x), y: self.y.wrapping_sub(rhs.y) }
    }

    /// Component-wise fixed-point product with a scalar: `(axis * rhs) >> 16`.
    pub fn mul_raw(self, rhs: Fixed) -> (r: Vec2)
        ensures
            r.x.0 == wrap_i32((self.x.0 * rhs.0) / 0x10000),
            r.y.0 == wrap_i32((self.y.0 * rhs.0) / 0x10000),
    {
        Vec2 { x: self.x.mul_raw(rhs), y: self.y.mul_raw(rhs) }
    }

    /// Snap each axis to `{-1, 0, +1}` with a half-unit dead zone, then scale
    /// diagonals by 3/5 so the result has roughly unit length.
    pub fn snap_to_8way(self) -> (r: Vec2)
        ensures
            r == snap_8way(self),
    {
        let x = snap(self.x);
        let y = snap(self.y);
        if x.0 != 0 && y.0 != 0 {
            Vec2 { x: Fixed(x.0 * 3 / 5), y: Fixed(y.0 * 3 / 5) }
        } else {
            Vec2 { x, y }
        }
    }

    /// In-place component-wise wrapping addition.
    pub fn add_assign(&mut self, rhs: Vec2)
        ensures
            final(self).x.0 == wrap_i32(old(self).x.0 + rhs.x.0),
            final(self).y.0 == wrap_i32(old(self).y.0 + rhs.y.0),
    {
        self.x = self.x.wrapping_add(rhs.x);
        self.y = self.y.wrapping_add(rhs.y);
    }

    /// In-place component-wise wrapping subtraction.
    pub fn sub_assign(&mut self, rhs: Vec2)
        ensures
            final(self).x.0 == wrap_i32(old(self).x.0 - rhs.x.0),
            final(self).y.0 == wrap_i32(old(self).y.0 - rhs.y.0),
    {
        self.x = self.x.wrapping_sub(rhs.x);
        self.y = self.y.wrapping_sub(rhs.y);
    }
}

fn snap(v: Fixed) -> (r: Fixed)
    ensures
        r.0 == snap_axis(v.0),
{
    if v.0 < -0x8000 {
        Fixed(-0x10000)
    } else if v.0 <= 0x8000 {
        Fixed(0)
    } else {
        Fixed(0x10000)
    }
}

impl core::ops::Add for Vec2 {
    type Output = Vec2;

    fn add(self, rhs: Vec2) -> (r: Vec2) {
        Vec2 { x: self.x + rhs.x, y: self.y + rhs.y }
    }
}

impl vstd::std_specs::ops::AddSpecImpl for Vec2 {
    open spec fn obeys_add_spec() -> bool {
        true
    }

    open spec fn add_req(self, rhs: Vec2) -> bool {
        true
    }

    open spec fn add_spec(self, rhs: Vec2) -> Vec2 {
        Vec2 { x: Fixed(wrap_i32(self.x.0 + rhs.x.0)), y: Fixed(wrap_i32(self.y.0 + rhs.y.0)) }
    }
}

impl core::ops::Sub for Vec2 {
    type Output = Vec2;

    fn sub(self, rhs: Vec2) -> (r: Vec2) {
        Vec2 { x: self.x - rhs.x, y: self.y - rhs.y }
    }
}

impl vstd::std_specs::ops::SubSpecImpl for Vec2 {
    open spec fn obeys_sub_spec() -> bool {
        true
    }

    open spec fn sub_req(self, rhs: Vec2) -> bool {
        true
    }

    open spec fn sub_spec(self, rhs: Vec2) -> Vec2 {
        Vec2 { x: Fixed(wrap_i32(self.x.0 - rhs.x.0)), y: Fixed(wrap_i32(self.y.0 - rhs.y.0)) }
    }
}

impl core::ops::Neg for Vec2 {
    type Output = Vec2;

    fn neg(self) -> (r: Vec2) {
        Vec2 { x: core::ops::Neg::neg(self.x), y: core::ops::Neg::neg(self.y) }
    }
}

impl vstd::std_specs::ops::NegSpecImpl for Vec2 {
    open spec fn obeys_neg_spec() -> bool {
        true
    }

    open spec fn neg_req(self) -> bool {
        true
    }

    open spec fn neg_spec(self) -> Vec2 {
        Vec2 { x: Fixed(wrap_i32(-self.x.0)), y: Fixed(wrap_i32(-self.y.0)) }
    }
}

impl core::ops::Mul<i32> for Vec2 {
    type Output = Vec2;

    fn mul(self, rhs: i32) -> (r: Vec2) {
        Vec2 { x: self.x * rhs, y: self.y * rhs }
    }
}

impl vstd::std_specs::ops::MulSpecImpl<i32> for Vec2 {
    open spec fn obeys_mul_spec() -> bool {
        true
    }

    open spec fn mul_req(self, rhs: i32) -> bool {
        true
    }

    open spec fn mul_spec(self, rhs: i32) -> Vec2 {
        Vec2 { x: Fixed(wrap_i32(self.x.0 * rhs)), y: Fixed(wrap_i32(self.y.0 * rhs)) }
    }
}

impl core::ops::Mul<Fixed> for Vec2 {
    type Output = Vec2;

    fn mul(self, rhs: Fixed) -> (r: Vec2) {
        Vec2 { x: self.x.mul_raw(rhs), y: self.y.mul_raw(rhs) }
    }
}

impl vstd::std_specs::ops::MulSpecImpl<Fixed> for Vec2 {
    open spec fn obeys_mul_spec() -> bool {
        true
    }

    open spec fn mul_req(self, rhs: Fixed) -> bool {
        true
    }

    open spec fn mul_spec(self, rhs: Fixed) -> Vec2 {
        Vec2 {
            x: Fixed(wrap_i32((self.x.0 * rhs.0) / 0x10000)),
            y: Fixed(wrap_i32((self.y.0 * rhs.0) / 0x10000)),
        }
    }
}

} // verus!
