//! Packed sprite index and rendering flags, as passed through the render
//! pipeline in a single `u32`.
use vstd::prelude::*;

verus! {

/// Tiled rendering mode.
pub const SPRITE_FLAG_TILED: u32 = 0x0001_0000;
/// Additional orientation bit.
pub const SPRITE_FLAG_ORIENTATION: u32 = 0x0002_0000;
/// Extra horizontal mirror.
pub const SPRITE_FLAG_MIRROR_X: u32 = 0x0004_0000;
/// Extra vertical mirror.
pub const SPRITE_FLAG_MIRROR_Y: u32 = 0x0008_0000;
/// Stippled palette adjustment.
pub const SPRITE_FLAG_STIPPLED_PAL: u32 = 0x0010_0000;
/// Additive blend mode.
pub const SPRITE_FLAG_ADDITIVE: u32 = 0x0020_0000;
/// Shadow clear mode.
pub const SPRITE_FLAG_SHADOW_CLEAR: u32 = 0x0040_0000;
/// Invert palette values.
pub const SPRITE_FLAG_INVERT_PALETTE: u32 = 0x0080_0000;
/// Palette x4 adjustment.
pub const SPRITE_FLAG_PALETTE_X4: u32 = 0x0100_0000;
/// Palette transform (colour cycling).
pub const SPRITE_FLAG_PALETTE_XFORM: u32 = 0x0200_0000;
/// Colour blend mode.
pub const SPRITE_FLAG_COLOR_BLEND: u32 = 0x0400_0000;
/// Stippled rendering mode 0.
pub const SPRITE_FLAG_STIPPLED_0: u32 = 0x0800_0000;
/// Stippled rendering mode 1.
pub const SPRITE_FLAG_STIPPLED_1: u32 = 0x1000_0000;
/// All defined flag bits.
pub const SPRITE_FLAGS_ALL: u32 = 0x1FFF_0000;

/// Transform and rendering flags of a sprite blit: a set of the defined
/// flag bits (bits 16 to 28).
#[derive(Clone, Copy, PartialEq, Eq, Structural, Debug, Hash)]
pub struct SpriteFlags {
    bits: u32,
}

impl SpriteFlags {
    /// The flag bits as a `u32`.
    pub closed spec fn spec_bits(self) -> u32 {
        self.bits
    }

    /// Only defined flag bits are set.
    pub open spec fn valid(self) -> bool {
        self.spec_bits() & !SPRITE_FLAGS_ALL == 0
    }

    pub fn bits(self) -> (r: u32)
        ensures
            r == self.spec_bits(),
    {
        self.bits
    }

    /// No flags.
    pub fn empty() -> (f: SpriteFlags)
        ensures
            f.spec_bits() == 0,
            f.valid(),
    {
        assert(0u32 & !SPRITE_FLAGS_ALL == 0) by (bit_vector);
        SpriteFlags { bits: 0 }
    }

    /// The defined flags among `bits`; other bits are dropped.
    pub fn from_bits_truncate(bits: u32) -> (f: SpriteFlags)
        ensures
            f.spec_bits() == bits & SPRITE_FLAGS_ALL,
            f.valid(),
    {
        assert((bits & 0x1FFF_0000u32) & !0x1FFF_0000u32 == 0) by (bit_vector);
        SpriteFlags { bits: bits & SPRITE_FLAGS_ALL }
    }

    pub fn is_empty(self) -> (r: bool)
        ensures
            r == (self.spec_bits() == 0),
    {
        self.bits == 0
    }

    /// All flags of `other` are set in `self`.
    pub fn contains(self, other: SpriteFlags) -> (r: bool)
        ensures
            r == (self.spec_bits() & other.spec_bits() == other.spec_bits()),
    {
        self.bits & other.bits == other.bits
    }

    /// The flags of either set.
    pub fn union(self, other: SpriteFlags) -> (f: SpriteFlags)
        requires
            self.valid(),
            other.valid(),
        ensures
            f.spec_bits() == self.spec_bits() | other.spec_bits(),
            f.valid(),
    {
        let a = self.bits;
        let b = other.bits;
        assert(a & !0x1FFF_0000u32 == 0 && b & !0x1FFF_0000u32 == 0 ==> (a | b) & !0x1FFF_0000u32
            == 0) by (bit_vector);
        SpriteFlags { bits: a | b }
    }
}

/// Sprite index (bits 0 to 15; 0 means no sprite) and rendering flags
/// (bits 16 to 28) packed in one `u32`.
#[derive(Clone, Copy, PartialEq, Eq, Structural, Debug, Hash)]
pub struct SpriteOp(pub u32);

impl SpriteOp {
    /// No sprite (index 0, no flags).
    pub fn none() -> (op: SpriteOp)
        ensures
            op.0 == 0,
    {
        SpriteOp(0)
    }

    /// Sprite index (low 16 bits).
    pub fn index(self) -> (r: u16)
        ensures
            r == self.0 & 0xFFFF,
    {
        let x = self.0;
        assert(x & 0xFFFFu32 <= 0xFFFFu32) by (bit_vector);
        (x & 0xFFFF) as u16
    }

    /// Rendering flags (the defined flag bits of the high half).
    pub fn flags(self) -> (f: SpriteFlags)
        ensures
            f.spec_bits() == self.0 & SPRITE_FLAGS_ALL,
            f.valid(),
    {
        let x = self.0;
        assert((x & 0xFFFF_0000u32) & 0x1FFF_0000u32 == x & 0x1FFF_0000u32) by (bit_vector);
        SpriteFlags::from_bits_truncate(self.0 & 0xFFFF_0000)
    }

    /// A sprite index without flags.
    pub fn from_index(index: u16) -> (op: SpriteOp)
        ensures
            op.0 == index as u32,
    {
        SpriteOp(index as u32)
    }

    /// A sprite index with flags.
    pub fn new(index: u16, flags: SpriteFlags) -> (op: SpriteOp)
        ensures
            op.0 == (index as u32) | flags.spec_bits(),
    {
        SpriteOp(index as u32 | flags.bits())
    }
}

/// Packing an index with valid flags and unpacking the result gives back
/// the index and the flags.
pub proof fn lemma_sprite_op_roundtrip(index: u16, flags: SpriteFlags)
    requires
        flags.valid(),
    ensures
        ((index as u32) | flags.spec_bits()) & 0xFFFF == index as u32,
        ((index as u32) | flags.spec_bits()) & SPRITE_FLAGS_ALL == flags.spec_bits(),
{
    let i = index as u32;
    let b = flags.spec_bits();
    assert(i <= 0xFFFF);
    assert(i <= 0xFFFF && b & !0x1FFF_0000u32 == 0 ==> (i | b) & 0xFFFFu32 == i && (i | b)
        & 0x1FFF_0000u32 == b) by (bit_vector);
}

} // verus!
