//! 16.16 fixed-point numbers as used throughout the game's physics.
use vstd::prelude::*;

verus! {

/// Reduce a mathematical integer to the 32-bit two's complement range
/// (the result of 32-bit wrapping arithmetic).
pub open spec fn wrap_i32(v: int) -> i32 {
    (((v + 0x8000_0000) % 0x1_0000_0000) - 0x8000_0000) as i32
}

/// Signed division that truncates toward zero (the semantics of `/` on
/// machine integers), for a positive divisor.
pub open spec fn trunc_div(a: int, d: int) -> int
    recommends
        d > 0,
{
    if a >= 0 {
        a / d
    } else {
        -((-a) / d)
    }
}

/// A 16.16 fixed-point value stored as its raw `i32` representation.
#[derive(Clone, Copy, PartialEq, Eq, Structural, Hash, Default, Debug)]
pub struct Fixed(pub i32);

/// One unit in raw 16.16 representation.
pub const FIXED_SCALE: i32 = 0x10000;

impl Fixed {
    pub const SCALE: i32 = 0x10000;

    /// The value zero.
    pub fn zero() -> (r: Fixed)
        ensures
            r.0 == 0,
    {
        Fixed(0)
    }

    /// The value one (raw `0x10000`).
    pub fn one() -> (r: Fixed)
        ensures
            r.0 == 0x10000,
    {
        Fixed(0x10000)
    }

    /// Build from a raw 16.16 value.
    pub fn from_raw(raw: i32) -> (r: Fixed)
        ensures
            r.0 == raw,
    {
        Fixed(raw)
    }

    /// Build from a whole number (`n << 16`, wrapping).
    pub fn from_int(n: i32) -> (r: Fixed)
        ensures
            r.0 == wrap_i32(n * 0x10000),
    {
        Fixed(n.wrapping_mul(0x10000))
    }

    /// The raw 16.16 representation.
    pub fn to_raw(self) -> (r: i32)
        ensures
            r == self.0,
    {
        self.0
    }

    /// The whole part, rounded toward negative infinity (`raw >> 16`).
    pub fn to_int(self) -> (r: i32)
        ensures
            r == self.0 / 0x10000,
    {
        proof {
            lemma_shr16_is_floor_div(self.0 as i64);
        }
        ((self.0 as i64) >> 16u32) as i32
    }

    /// Wrapping addition of the raw values.
    pub fn wrapping_add(self, rhs: Fixed) -> (r: Fixed)
        ensures
            r.0 == wrap_i32(self.0 + rhs.0),
    {
        Fixed(self.0.wrapping_add(rhs.0))
    }

    /// Wrapping subtraction of the raw values.
    pub fn wrapping_sub(self, rhs: Fixed) -> (r: Fixed)
        ensures
            r.0 == wrap_i32(self.0 - rhs.0),
    {
        Fixed(self.0.wrapping_sub(rhs.0))
    }

    /// Fixed-point product: `(self * rhs) >> 16` computed in 64 bits, then
    /// truncated to 32 bits.
    pub fn mul_raw(self, rhs: Fixed) -> (r: Fixed)
        ensures
            r.0 == wrap_i32((self.0 * rhs.0) / 0x10000),
    {
        let a: i64 = self.0 as i64;
        let b: i64 = rhs.0 as i64;
        assert(-0x4000_0000_0000_0000 <= a * b <= 0x4000_0000_0000_0000) by (nonlinear_arith)
            requires
                -0x8000_0000 <= a <= 0x7fff_ffff,
                -0x8000_0000 <= b <= 0x7fff_ffff,
        ;
        let p: i64 = a * b;
        let q: i64 = p >> 16u32;
        proof {
            lemma_shr16_is_floor_div(p);
        }
        Fixed(wrapping_to_i32(q))
    }
}

/// Truncate a 64-bit value to its low 32 bits, read as a signed value.
pub fn wrapping_to_i32(q: i64) -> (r: i32)
    ensures
        r == wrap_i32(q as int),
{
    let mut m: i64 = q % 0x1_0000_0000;
    if m < 0 {
        m = m + 0x1_0000_0000;
    }
    if m >= 0x8000_0000 {
        m = m - 0x1_0000_0000;
    }
    m as i32
}

/// An arithmetic right shift by 16 is floor division by 65536.
proof fn lemma_shr16_is_floor_div(p: i64)
    ensures
        (p >> 16u32) as int == (p as int) / 0x10000,
{
    assert((p >> 16u32) as int == (p as int) / 0x10000) by (bit_vector);
}

} // verus!

verus! {

impl core::ops::Add for Fixed {
    type Output = Fixed;

    fn add(self, rhs: Fixed) -> (r: Fixed) {
        Fixed(self.0.wrapping_add(rhs.0))
    }
}

impl vstd::std_specs::ops::AddSpecImpl for Fixed {
    open spec fn obeys_add_spec() -> bool {
        true
    }

    open spec fn add_req(self, rhs: Fixed) -> bool {
        true
    }

    open spec fn add_spec(self, rhs: Fixed) -> Fixed {
        Fixed(wrap_i32(self.0 + rhs.0))
    }
}

} // verus!

verus! {

impl core::ops::Sub for Fixed {
    type Output = Fixed;

    fn sub(self, rhs: Fixed) -> (r: Fixed) {
        Fixed(self.0.wrapping_sub(rhs.0))
    }
}

impl vstd::std_specs::ops::SubSpecImpl for Fixed {
    open spec fn obeys_sub_spec() -> bool {
        true
    }

    open spec fn sub_req(self, rhs: Fixed) -> bool {
        true
    }

    open spec fn sub_spec(self, rhs: Fixed) -> Fixed {
        Fixed(wrap_i32(self.0 - rhs.0))
    }
}

impl core::ops::Neg for Fixed {
    type Output = Fixed;

    fn neg(self) -> (r: Fixed) {
        Fixed(0i32.wrapping_sub(self.0))
    }
}

impl vstd::std_specs::ops::NegSpecImpl for Fixed {
    open spec fn obeys_neg_spec() -> bool {
        true
    }

    open spec fn neg_req(self) -> bool {
        true
    }

    open spec fn neg_spec(self) -> Fixed {
        Fixed(wrap_i32(-self.0))
    }
}

impl core::ops::Mul<i32> for Fixed {
    type Output = Fixed;

    fn mul(self, rhs: i32) -> (r: Fixed) {
        Fixed(self.0.wrapping_mul(rhs))
    }
}

impl vstd::std_specs::ops::MulSpecImpl<i32> for Fixed {
    open spec fn obeys_mul_spec() -> bool {
        true
    }

    open spec fn mul_req(self, rhs: i32) -> bool {
        true
    }

    open spec fn mul_spec(self, rhs: i32) -> Fixed {
        Fixed(wrap_i32(self.0 * rhs))
    }
}

} // verus!
