use vstd::prelude::*;

verus! {

/// A real number, held by the 64 bits of its IEEE-754 binary64 form.
#[derive(Clone, Copy, Debug, PartialEq, Eq, Structural)]
pub struct Real {
    pub bits: u64,
}

/// The bits of 0.0.
pub const ZERO_BITS: u64 = 0;

/// The bits of 0.25.
pub const QUARTER_BITS: u64 = 0x3FD0_0000_0000_0000;

/// The bits of 0.5.
pub const HALF_BITS: u64 = 0x3FE0_0000_0000_0000;

/// The bits of 0.75.
pub const THREE_QUARTERS_BITS: u64 = 0x3FE8_0000_0000_0000;

/// The bits of 1.0.
pub const ONE_BITS: u64 = 0x3FF0_0000_0000_0000;

impl Real {
    /// The real number with the given bits.
    pub fn from_bits(bits: u64) -> (r: Real)
        ensures
            r.bits == bits,
    {
        Real { bits }
    }

    /// The bits of the number.
    pub fn to_bits(&self) -> (bits: u64)
        ensures
            bits == self.bits,
    {
        self.bits
    }
}

/// A number as a document writes it: an integer, or a real number.
#[derive(Clone, Copy, Debug, PartialEq, Eq, Structural)]
pub enum Number {
    Integer(i64),
    Real(Real),
}

} // verus!
