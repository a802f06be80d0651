use vstd::prelude::*;

verus! {

/// Two single-precision numbers, each held as its IEEE-754 bit pattern.
#[derive(Clone, Copy, Debug, PartialEq, Eq, Structural)]
pub struct Float2 {
    pub x: u32,
    pub y: u32,
}

/// Three single-precision numbers, each held as its IEEE-754 bit pattern.
#[derive(Clone, Copy, Debug, PartialEq, Eq, Structural)]
pub struct Float3 {
    pub x: u32,
    pub y: u32,
    pub z: u32,
}

/// Four single-precision numbers, each held as its IEEE-754 bit pattern.
#[derive(Clone, Copy, Debug, PartialEq, Eq, Structural)]
pub struct Float4 {
    pub x: u32,
    pub y: u32,
    pub z: u32,
    pub w: u32,
}

/// The bit pattern of the single-precision `0.0`.
pub const FLOAT_ZERO_BITS: u32 = 0u32;

/// The bit pattern of the single-precision `1.0`.
pub const FLOAT_ONE_BITS: u32 = 0x3f80_0000u32;

impl Float3 {
    pub open spec fn zero_spec() -> Self {
        Float3 { x: FLOAT_ZERO_BITS, y: FLOAT_ZERO_BITS, z: FLOAT_ZERO_BITS }
    }

    /// All three components `0.0`.
    pub fn zero() -> (out: Self)
        ensures
            out.x == FLOAT_ZERO_BITS && out.y == FLOAT_ZERO_BITS && out.z == FLOAT_ZERO_BITS,
    {
        Float3 { x: FLOAT_ZERO_BITS, y: FLOAT_ZERO_BITS, z: FLOAT_ZERO_BITS }
    }

    /// All three components `1.0`.
    pub fn one() -> (out: Self)
        ensures
            out.x == FLOAT_ONE_BITS && out.y == FLOAT_ONE_BITS && out.z == FLOAT_ONE_BITS,
    {
        Float3 { x: FLOAT_ONE_BITS, y: FLOAT_ONE_BITS, z: FLOAT_ONE_BITS }
    }
}

} // verus!
