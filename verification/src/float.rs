//! Predicates on IEEE-754 numbers held as bit patterns.
//!
//! Scalars of a document keep their floating-point numbers as the bits of the
//! binary64 or binary32 encoding. Two numbers count as the same value when
//! their bits agree or when both are zeros, of either sign.
use vstd::prelude::*;

verus! {

/// All bits of a binary64 number but its sign.
pub const F64_MAGNITUDE: u64 = 0x7fff_ffff_ffff_ffff;

/// The exponent bits of a binary64 number.
pub const F64_EXPONENT: u64 = 0x7ff0_0000_0000_0000;

/// The fraction bits of a binary64 number.
pub const F64_FRACTION: u64 = 0x000f_ffff_ffff_ffff;

/// All bits of a binary32 number but its sign.
pub const F32_MAGNITUDE: u32 = 0x7fff_ffff;

/// The exponent bits of a binary32 number.
pub const F32_EXPONENT: u32 = 0x7f80_0000;

/// The fraction bits of a binary32 number.
pub const F32_FRACTION: u32 = 0x007f_ffff;

/// A binary64 pattern is not a number: its exponent is all ones and its
/// fraction is not zero.
pub open spec fn f64_is_nan(bits: u64) -> bool {
    (bits & F64_EXPONENT) == F64_EXPONENT && (bits & F64_FRACTION) != 0
}

/// A binary64 pattern is a finite number: its exponent is not all ones.
pub open spec fn f64_is_finite(bits: u64) -> bool {
    (bits & F64_EXPONENT) != F64_EXPONENT
}

/// A binary64 pattern is a zero, positive or negative.
pub open spec fn f64_is_zero(bits: u64) -> bool {
    (bits & F64_MAGNITUDE) == 0
}

/// Two binary64 patterns stand for the same value.
pub open spec fn f64_same(a: u64, b: u64) -> bool {
    a == b || (f64_is_zero(a) && f64_is_zero(b))
}

/// A binary32 pattern is not a number.
pub open spec fn f32_is_nan(bits: u32) -> bool {
    (bits & F32_EXPONENT) == F32_EXPONENT && (bits & F32_FRACTION) != 0
}

/// A binary32 pattern is a zero, positive or negative.
pub open spec fn f32_is_zero(bits: u32) -> bool {
    (bits & F32_MAGNITUDE) == 0
}

/// Two binary32 patterns stand for the same value.
pub open spec fn f32_same(a: u32, b: u32) -> bool {
    a == b || (f32_is_zero(a) && f32_is_zero(b))
}

/// Tells whether a binary64 pattern is not a number.
pub fn is_nan_f64(bits: u64) -> (nan: bool)
    ensures
        nan == f64_is_nan(bits),
{
    (bits & F64_EXPONENT) == F64_EXPONENT && (bits & F64_FRACTION) != 0
}

/// Tells whether a binary64 pattern is a finite number.
pub fn is_finite_f64(bits: u64) -> (finite: bool)
    ensures
        finite == f64_is_finite(bits),
{
    (bits & F64_EXPONENT) != F64_EXPONENT
}

/// Tells whether a binary32 pattern is not a number.
pub fn is_nan_f32(bits: u32) -> (nan: bool)
    ensures
        nan == f32_is_nan(bits),
{
    (bits & F32_EXPONENT) == F32_EXPONENT && (bits & F32_FRACTION) != 0
}

/// Tells whether two binary64 patterns stand for the same value.
pub fn same_f64(a: u64, b: u64) -> (same: bool)
    ensures
        same == f64_same(a, b),
{
    a == b || ((a & F64_MAGNITUDE) == 0 && (b & F64_MAGNITUDE) == 0)
}

/// Tells whether two binary32 patterns stand for the same value.
pub fn same_f32(a: u32, b: u32) -> (same: bool)
    ensures
        same == f32_same(a, b),
{
    a == b || ((a & F32_MAGNITUDE) == 0 && (b & F32_MAGNITUDE) == 0)
}

} // verus!
