//! 32-bit floats carried as raw bit patterns.
//!
//! The verifier has no model of floating point, so every scalar of the engine
//! is a `u32` holding the IEEE-754 binary32 bit pattern of the value it stands
//! for. The rounded arithmetic (sum, product, quotient) is done by
//! `rustc_apfloat` behind trusted wrappers whose results are named by
//! uninterpreted spec functions; negation and ordering are pure bit
//! manipulation and are implemented and verified here.

use vstd::prelude::*;
use rustc_apfloat::Float;

verus! {

/// Bit pattern of the 32-bit float `+0.0`.
pub const BITS_ZERO: u32 = 0x0000_0000;

/// Bit pattern of the 32-bit float `1.0`.
pub const BITS_ONE: u32 = 0x3F80_0000;

/// The bit pattern of the IEEE-754 binary32 sum, rounded to nearest even, of
/// the two floats whose bit patterns are `a` and `b`.
pub uninterp spec fn add_bits(a: u32, b: u32) -> u32;

/// The bit pattern of the IEEE-754 binary32 product, rounded to nearest even,
/// of the two floats whose bit patterns are `a` and `b`.
pub uninterp spec fn mul_bits(a: u32, b: u32) -> u32;

/// The bit pattern of the IEEE-754 binary32 quotient, rounded to nearest even,
/// of the two floats whose bit patterns are `a` and `b`.
pub uninterp spec fn div_bits(a: u32, b: u32) -> u32;

/// Relies on `rustc_apfloat::ieee::Single`: its `+` is IEEE-754 binary32
/// addition, rounded to nearest even, total on every bit pattern (infinities
/// and NaN follow the IEEE rules; nothing panics).
#[verifier::external_body]
pub(crate) fn f_add(a: u32, b: u32) -> (r: u32)
    ensures
        r == add_bits(a, b),
{
    let x = rustc_apfloat::ieee::Single::from_bits(a as u128);
    let y = rustc_apfloat::ieee::Single::from_bits(b as u128);
    (x + y).value.to_bits() as u32
}

/// Relies on `rustc_apfloat::ieee::Single`: its `*` is IEEE-754 binary32
/// multiplication, rounded to nearest even, total on every bit pattern.
#[verifier::external_body]
pub(crate) fn f_mul(a: u32, b: u32) -> (r: u32)
    ensures
        r == mul_bits(a, b),
{
    let x = rustc_apfloat::ieee::Single::from_bits(a as u128);
    let y = rustc_apfloat::ieee::Single::from_bits(b as u128);
    (x * y).value.to_bits() as u32
}

/// Relies on `rustc_apfloat::ieee::Single`: its `/` is IEEE-754 binary32
/// division, rounded to nearest even, total on every bit pattern (a zero
/// divisor gives an infinity or NaN, as IEEE prescribes; nothing panics).
#[verifier::external_body]
pub(crate) fn f_div(a: u32, b: u32) -> (r: u32)
    ensures
        r == div_bits(a, b),
{
    let x = rustc_apfloat::ieee::Single::from_bits(a as u128);
    let y = rustc_apfloat::ieee::Single::from_bits(b as u128);
    (x / y).value.to_bits() as u32
}

/// IEEE negation of a binary32 bit pattern: the sign bit flipped.
pub open spec fn neg_bits(b: u32) -> u32 {
    if b >= 0x8000_0000 {
        (b - 0x8000_0000) as u32
    } else {
        (b + 0x8000_0000) as u32
    }
}

/// Negate a 32-bit float given, and returned, as its bit pattern.
pub fn f_neg(b: u32) -> (r: u32)
    ensures
        r == neg_bits(b),
{
    if b >= 0x8000_0000 {
        b - 0x8000_0000
    } else {
        b + 0x8000_0000
    }
}

/// The magnitude half of a binary32 bit pattern: the sign bit cleared.
pub open spec fn mag_bits(b: u32) -> u32 {
    if b >= 0x8000_0000 {
        (b - 0x8000_0000) as u32
    } else {
        b
    }
}

/// Whether a binary32 bit pattern is a NaN: exponent all ones and a non-zero
/// mantissa, that is, a magnitude above the one of infinity.
pub open spec fn is_nan_bits(b: u32) -> bool {
    mag_bits(b) > 0x7F80_0000
}

/// The place of a binary32 bit pattern on the number line, as an integer key:
/// for patterns that are not NaN, the floats order exactly as these keys do
/// (binary32 is a sign-magnitude code), and the two zeros share the key 0.
pub open spec fn key_bits(b: u32) -> int {
    if b >= 0x8000_0000 {
        -(mag_bits(b) as int)
    } else {
        mag_bits(b) as int
    }
}

/// IEEE `>` on two floats held as bit patterns: false whenever either operand
/// is NaN, otherwise the order of the keys.
pub open spec fn gt_bits(a: u32, b: u32) -> bool {
    &&& !is_nan_bits(a)
    &&& !is_nan_bits(b)
    &&& key_bits(a) > key_bits(b)
}

/// Compare two 32-bit floats, given as bit patterns, with IEEE `>`.
pub fn f_gt(a: u32, b: u32) -> (r: bool)
    ensures
        r == gt_bits(a, b),
{
    let ma = if a >= 0x8000_0000 { a - 0x8000_0000 } else { a };
    let mb = if b >= 0x8000_0000 { b - 0x8000_0000 } else { b };
    if ma > 0x7F80_0000 || mb > 0x7F80_0000 {
        false
    } else if a >= 0x8000_0000 {
        // a is negative or negative zero: greater only than a more negative b.
        b >= 0x8000_0000 && mb > ma
    } else if b >= 0x8000_0000 {
        // a is non-negative, b is negative: greater unless both are zeros.
        ma > 0 || mb > 0
    } else {
        ma > mb
    }
}

} // verus!
