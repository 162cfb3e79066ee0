//! Single-precision numbers, as the bits that stand for them.

use vstd::prelude::*;

verus! {

/// An IEEE 754 single-precision number by its bits: one for the sign,
/// eight for the exponent, twenty-three for the fraction.
#[derive(Debug, Clone, Copy, PartialEq, Eq, Structural)]
pub struct Float32 {
    pub bits: u32,
}

/// The exponent bits.
pub open spec fn exponent(f: Float32) -> int {
    (f.bits as int / 0x80_0000) % 0x100
}

/// Neither infinite nor NaN: both have all exponent bits set.
pub open spec fn finite(f: Float32) -> bool {
    exponent(f) != 0xff
}

impl Float32 {
    /// The number that `bits` stand for.
    pub fn from_bits(bits: u32) -> (res: Self)
        ensures
            res.bits == bits,
    {
        Float32 { bits }
    }

    /// Is the number neither infinite nor NaN?
    pub fn is_finite(&self) -> (res: bool)
        ensures
            res == finite(*self),
    {
        (self.bits / 0x80_0000) % 0x100 != 0xff
    }
}

/// A number is finite exactly where its bits, without the sign, are below
/// those of infinity.
pub proof fn law_finite_by_bits(f: Float32)
    ensures
        finite(f) <==> (f.bits as int) % 0x8000_0000 < 0x7f80_0000,
{
}

} // verus!
