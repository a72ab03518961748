//! Floating-point values as they stand in a file.

use vstd::prelude::*;

verus! {

/// Bit-preserving wrapper for an IEEE-754 double stored in a BLF object.
///
/// Keeping the raw representation makes object equality reflexive even for
/// NaN payloads.
#[derive(Debug, Clone, Copy, Default, PartialEq, Eq, Structural)]
pub struct Float64(pub u64);

impl Float64 {
    /// The value with the given IEEE-754 bits.
    pub fn from_bits(bits: u64) -> (r: Self)
        ensures
            r.0 == bits,
    {
        Self(bits)
    }

    /// The IEEE-754 bits of the value.
    pub fn bits(self) -> (r: u64)
        ensures
            r == self.0,
    {
        self.0
    }
}

} // verus!
