//! Resolved scalars: a value together with its derivative.
use vstd::prelude::*;

verus! {

/// A scalar and its derivative, each the 32 bits of an IEEE 754
/// single-precision number.
#[derive(Clone, Copy, Debug, PartialEq, Eq, Structural)]
pub struct Value {
    pub data: u32,
    pub grad: u32,
}

/// The one way in which resolving can fail: a division whose divisor has
/// resolved to zero.
#[derive(Clone, Copy, Debug, PartialEq, Eq, Structural)]
pub struct DivisionByZeroFault;

/// What resolving a tree gives: its value, or the fault.
pub type Outcome = Result<Value, DivisionByZeroFault>;

/// The bit patterns that compare equal to zero: positive and negative zero.
/// Nothing else does, however small, and no NaN.
pub open spec fn zero_bits(bits: u32) -> bool {
    bits == 0 || bits == 0x8000_0000
}

/// Whether `bits` is a zero of either sign.
pub fn is_zero(bits: u32) -> (zero: bool)
    ensures
        zero == zero_bits(bits),
{
    bits == 0 || bits == 0x8000_0000
}

} // verus!
