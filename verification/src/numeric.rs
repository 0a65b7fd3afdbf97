//! Bit-level model of the runtime's numbers.
//!
//! The language's numbers are IEEE-754 binary64 values, carried everywhere as
//! their 64-bit pattern. Sign, zero, NaN and ordering tests are plain bit
//! logic and are implemented and specified here directly; only the rounding
//! arithmetic (add, subtract, multiply, divide) and decimal parsing are
//! performed by an outside soft-float library behind trusted wrappers.

use vstd::prelude::*;

verus! {

use core::str::FromStr;
use rustc_apfloat::Float;
use rustc_apfloat::Round;
use rustc_apfloat::ieee::Double;

/// Mask of the sign bit of a binary64 pattern.
pub const SIGN_MASK: u64 = 0x8000_0000_0000_0000;
/// Mask of the exponent field of a binary64 pattern.
pub const EXP_MASK: u64 = 0x7FF0_0000_0000_0000;
/// Mask of the fraction field of a binary64 pattern.
pub const FRAC_MASK: u64 = 0x000F_FFFF_FFFF_FFFF;
/// Mask of everything but the sign bit of a binary64 pattern.
pub const ABS_MASK: u64 = 0x7FFF_FFFF_FFFF_FFFF;

/// The pattern encodes +0.0 or -0.0.
pub open spec fn spec_is_zero_bits(b: u64) -> bool {
    b & ABS_MASK == 0
}

/// The pattern encodes a NaN (exponent all ones, fraction non-zero).
pub open spec fn spec_is_nan_bits(b: u64) -> bool {
    b & EXP_MASK == EXP_MASK && b & FRAC_MASK != 0
}

/// The sign bit is set (the encoded value is negative or -0.0).
pub open spec fn spec_sign_bit(b: u64) -> bool {
    b & SIGN_MASK == SIGN_MASK
}

/// IEEE-754 negation: flip the sign bit.
pub open spec fn spec_neg_bits(b: u64) -> u64 {
    b ^ SIGN_MASK
}

/// IEEE-754 equality on two binary64 patterns: NaN equals nothing,
/// +0.0 equals -0.0, and otherwise equal values have equal patterns.
pub open spec fn spec_eq_bits(a: u64, b: u64) -> bool {
    &&& !spec_is_nan_bits(a)
    &&& !spec_is_nan_bits(b)
    &&& (a == b || (spec_is_zero_bits(a) && spec_is_zero_bits(b)))
}

/// IEEE-754 `<` on two non-NaN binary64 patterns, read as sign-magnitude
/// integers: a negative value is below any positive one (except that the two
/// zeroes are equal), two positives order by pattern, two negatives reversed.
pub open spec fn spec_lt_bits(a: u64, b: u64) -> bool {
    if spec_is_zero_bits(a) && spec_is_zero_bits(b) {
        false
    } else if spec_sign_bit(a) != spec_sign_bit(b) {
        spec_sign_bit(a)
    } else if spec_sign_bit(a) {
        b < a
    } else {
        a < b
    }
}

/// The pattern encodes +0.0 or -0.0.
pub fn is_zero_bits(b: u64) -> (r: bool)
    ensures
        r == spec_is_zero_bits(b),
{
    b & ABS_MASK == 0
}

/// The pattern encodes a NaN.
pub fn is_nan_bits(b: u64) -> (r: bool)
    ensures
        r == spec_is_nan_bits(b),
{
    b & EXP_MASK == EXP_MASK && b & FRAC_MASK != 0
}

/// The sign bit is set.
pub fn sign_bit(b: u64) -> (r: bool)
    ensures
        r == spec_sign_bit(b),
{
    b & SIGN_MASK == SIGN_MASK
}

/// IEEE-754 negation of a binary64 pattern.
pub fn neg_bits(b: u64) -> (r: u64)
    ensures
        r == spec_neg_bits(b),
{
    b ^ SIGN_MASK
}

/// IEEE-754 equality of two binary64 patterns.
pub fn eq_bits(a: u64, b: u64) -> (r: bool)
    ensures
        r == spec_eq_bits(a, b),
{
    !is_nan_bits(a) && !is_nan_bits(b) && (a == b || (is_zero_bits(a) && is_zero_bits(b)))
}

/// IEEE-754 `<` of two non-NaN binary64 patterns.
pub fn lt_bits(a: u64, b: u64) -> (r: bool)
    requires
        !spec_is_nan_bits(a),
        !spec_is_nan_bits(b),
    ensures
        r == spec_lt_bits(a, b),
{
    if is_zero_bits(a) && is_zero_bits(b) {
        false
    } else if sign_bit(a) != sign_bit(b) {
        sign_bit(a)
    } else if sign_bit(a) {
        b < a
    } else {
        a < b
    }
}

/// The binary64 pattern of the IEEE-754 round-to-nearest-even sum of the
/// values encoded by two binary64 patterns.
pub uninterp spec fn spec_add_bits(a: u64, b: u64) -> u64;

/// The binary64 pattern of the IEEE-754 round-to-nearest-even difference of
/// the values encoded by two binary64 patterns.
pub uninterp spec fn spec_sub_bits(a: u64, b: u64) -> u64;

/// The binary64 pattern of the IEEE-754 round-to-nearest-even product of the
/// values encoded by two binary64 patterns.
pub uninterp spec fn spec_mul_bits(a: u64, b: u64) -> u64;

/// The binary64 pattern of the IEEE-754 round-to-nearest-even quotient of the
/// values encoded by two binary64 patterns.
pub uninterp spec fn spec_div_bits(a: u64, b: u64) -> u64;

/// The binary64 pattern of the number the soft-float library reads from a
/// text, correctly rounded, or None where it can read none.
pub uninterp spec fn spec_parse_double_bits(text: Seq<char>) -> Option<u64>;

/// Relies on rustc_apfloat's `Float::add_r` on `ieee::Double`: the IEEE-754
/// sum, rounded to nearest-even, a function of the two patterns alone.
#[verifier::external_body]
pub fn add_bits(a: u64, b: u64) -> (r: u64)
    ensures
        r == spec_add_bits(a, b),
{
    let x = Double::from_bits(a as u128);
    let y = Double::from_bits(b as u128);
    x.add_r(y, Round::NearestTiesToEven).value.to_bits() as u64
}

/// Relies on rustc_apfloat's `Float::sub_r` on `ieee::Double`: the IEEE-754
/// difference, rounded to nearest-even, a function of the two patterns alone.
#[verifier::external_body]
pub fn sub_bits(a: u64, b: u64) -> (r: u64)
    ensures
        r == spec_sub_bits(a, b),
{
    let x = Double::from_bits(a as u128);
    let y = Double::from_bits(b as u128);
    x.sub_r(y, Round::NearestTiesToEven).value.to_bits() as u64
}

/// Relies on rustc_apfloat's `Float::mul_r` on `ieee::Double`: the IEEE-754
/// product, rounded to nearest-even, a function of the two patterns alone.
#[verifier::external_body]
pub fn mul_bits(a: u64, b: u64) -> (r: u64)
    ensures
        r == spec_mul_bits(a, b),
{
    let x = Double::from_bits(a as u128);
    let y = Double::from_bits(b as u128);
    x.mul_r(y, Round::NearestTiesToEven).value.to_bits() as u64
}

/// Relies on rustc_apfloat's `Float::div_r` on `ieee::Double`: the IEEE-754
/// quotient, rounded to nearest-even, a function of the two patterns alone.
#[verifier::external_body]
pub fn div_bits(a: u64, b: u64) -> (r: u64)
    ensures
        r == spec_div_bits(a, b),
{
    let x = Double::from_bits(a as u128);
    let y = Double::from_bits(b as u128);
    x.div_r(y, Round::NearestTiesToEven).value.to_bits() as u64
}

/// Relies on rustc_apfloat's `FromStr` for `ieee::Double`: the correctly
/// rounded reading of a decimal text, a function of the characters alone;
/// it returns an error, and never panics, on text it cannot read.
#[verifier::external_body]
pub fn parse_double_bits(text: &[char]) -> (r: Option<u64>)
    ensures
        r == spec_parse_double_bits(text@),
{
    let s: String = text.iter().collect();
    match Double::from_str(&s) {
        Ok(v) => Some(v.to_bits() as u64),
        Err(_) => None,
    }
}

} // verus!
