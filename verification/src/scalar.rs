//! Floating-point fields, held as their IEEE-754 bit patterns.
//!
//! The container stores and returns every floating-point field bit for bit, so
//! the library keeps the bit pattern and leaves arithmetic to its callers.

use vstd::prelude::*;

verus! {

/// A double-precision field, kept as its IEEE-754 bit pattern.
#[derive(Clone, Copy, Debug, PartialEq, Eq, Structural)]
pub struct Float64 {
    pub bits: u64,
}

/// A single-precision field, kept as its IEEE-754 bit pattern.
#[derive(Clone, Copy, Debug, PartialEq, Eq, Structural)]
pub struct Float32 {
    pub bits: u32,
}

/// The bit pattern of the double-precision number one.
pub const ONE_BITS: u64 = 0x3FF0_0000_0000_0000;

impl Float64 {
    /// Positive zero.
    pub open spec fn zero() -> Float64 {
        Float64 { bits: 0 }
    }

    /// The number one.
    pub open spec fn one() -> Float64 {
        Float64 { bits: ONE_BITS }
    }

    /// The value with the given bit pattern.
    pub fn from_bits(bits: u64) -> (value: Float64)
        ensures
            value.bits == bits,
    {
        Float64 { bits }
    }

    /// The bit pattern of the value.
    pub fn to_bits(self) -> (bits: u64)
        ensures
            bits == self.bits,
    {
        self.bits
    }
}

impl Float32 {
    /// Positive zero.
    pub open spec fn zero() -> Float32 {
        Float32 { bits: 0 }
    }

    /// The value with the given bit pattern.
    pub fn from_bits(bits: u32) -> (value: Float32)
        ensures
            value.bits == bits,
    {
        Float32 { bits }
    }

    /// The bit pattern of the value.
    pub fn to_bits(self) -> (bits: u32)
        ensures
            bits == self.bits,
    {
        self.bits
    }
}

} // verus!
