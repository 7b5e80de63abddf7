//! Binary64 floating-point numbers, held as their IEEE-754 bit patterns.
//!
//! What follows from the bits alone (sign, zero, negation, absolute value,
//! order) is computed and proved here. Rounding arithmetic, conversions
//! and numerals are asked of a [`FloatUnit`] that the embedding program
//! supplies.
use vstd::prelude::*;

verus! {

pub const SIGN_BIT: u64 = 0x8000_0000_0000_0000;

pub const MAGNITUDE: u64 = 0x7FFF_FFFF_FFFF_FFFF;

pub const EXPONENT_BITS: u64 = 0x7FF0_0000_0000_0000;

pub const FRACTION_BITS: u64 = 0x000F_FFFF_FFFF_FFFF;

/// The bit pattern of `1.0`.
pub const ONE: u64 = 0x3FF0_0000_0000_0000;

/// The bit pattern of `+0.0`.
pub const ZERO: u64 = 0;

/// The binary64 operations that the bit patterns cannot give by themselves.
/// Each takes and returns bit patterns, and computes what Rust's `f64`
/// computes on the numbers they stand for.
pub trait FloatUnit {
    /// `i as f64`.
    fn from_int(&self, i: i64) -> u64;

    /// `f as i64`: truncation toward zero, saturating, `NaN` to `0`.
    fn to_int(&self, f: u64) -> i64;

    /// `f as usize`: truncation toward zero, saturating, `NaN` to `0`.
    fn to_count(&self, f: u64) -> usize;

    /// `a + b`.
    fn sum(&self, a: u64, b: u64) -> u64;

    /// `a - b`.
    fn difference(&self, a: u64, b: u64) -> u64;

    /// `a * b`.
    fn product(&self, a: u64, b: u64) -> u64;

    /// `a / b`.
    fn quotient(&self, a: u64, b: u64) -> u64;

    /// `a % b`.
    fn remainder(&self, a: u64, b: u64) -> u64;

    /// `f.to_string()`.
    fn format(&self, f: u64) -> String;

    /// `text.parse::<f64>().ok()`.
    fn parse(&self, text: &str) -> Option<u64>;
}

/// Whether the bits stand for `+0.0` or `-0.0`.
pub open spec fn is_zero_spec(f: u64) -> bool {
    f & MAGNITUDE == 0
}

pub open spec fn is_nan_spec(f: u64) -> bool {
    f & EXPONENT_BITS == EXPONENT_BITS && f & FRACTION_BITS != 0
}

pub open spec fn is_sign_negative_spec(f: u64) -> bool {
    f & SIGN_BIT != 0
}

/// `-f`: the sign bit flipped.
pub open spec fn negate_spec(f: u64) -> u64 {
    f ^ SIGN_BIT
}

/// `f.abs()`: the sign bit cleared.
pub open spec fn abs_spec(f: u64) -> u64 {
    f & MAGNITUDE
}

/// A number that orders the non-`NaN` values as the reals they stand for
/// do; both zeros map to `0`.
pub open spec fn order_key(f: u64) -> int {
    if is_sign_negative_spec(f) {
        -((f & MAGNITUDE) as int)
    } else {
        (f & MAGNITUDE) as int
    }
}

pub open spec fn int_order(a: int, b: int) -> std::cmp::Ordering {
    if a < b {
        std::cmp::Ordering::Less
    } else if a > b {
        std::cmp::Ordering::Greater
    } else {
        std::cmp::Ordering::Equal
    }
}

/// `f64::partial_cmp`: unordered where either side is `NaN`.
pub open spec fn float_order(a: u64, b: u64) -> Option<std::cmp::Ordering> {
    if is_nan_spec(a) || is_nan_spec(b) {
        None
    } else {
        Some(int_order(order_key(a), order_key(b)))
    }
}

/// `f64`'s `==`: never for a `NaN`, and `+0.0 == -0.0`.
pub open spec fn float_equal(a: u64, b: u64) -> bool {
    !is_nan_spec(a) && !is_nan_spec(b) && (a == b || (is_zero_spec(a) && is_zero_spec(b)))
}

pub fn equal(a: u64, b: u64) -> (r: bool)
    ensures
        r == float_equal(a, b),
{
    !is_nan(a) && !is_nan(b) && (a == b || (is_zero(a) && is_zero(b)))
}

pub fn is_zero(f: u64) -> (r: bool)
    ensures
        r == is_zero_spec(f),
{
    f & MAGNITUDE == 0
}

pub fn is_nan(f: u64) -> (r: bool)
    ensures
        r == is_nan_spec(f),
{
    f & EXPONENT_BITS == EXPONENT_BITS && f & FRACTION_BITS != 0
}

pub fn is_sign_negative(f: u64) -> (r: bool)
    ensures
        r == is_sign_negative_spec(f),
{
    f & SIGN_BIT != 0
}

pub fn negate(f: u64) -> (r: u64)
    ensures
        r == negate_spec(f),
{
    f ^ SIGN_BIT
}

pub fn abs(f: u64) -> (r: u64)
    ensures
        r == abs_spec(f),
{
    f & MAGNITUDE
}

pub fn compare(a: u64, b: u64) -> (r: Option<std::cmp::Ordering>)
    ensures
        r == float_order(a, b),
{
    if is_nan(a) || is_nan(b) {
        return None;
    }
    let ka: i128 = if is_sign_negative(a) {
        -((a & MAGNITUDE) as i128)
    } else {
        (a & MAGNITUDE) as i128
    };
    let kb: i128 = if is_sign_negative(b) {
        -((b & MAGNITUDE) as i128)
    } else {
        (b & MAGNITUDE) as i128
    };
    if ka < kb {
        Some(std::cmp::Ordering::Less)
    } else if ka > kb {
        Some(std::cmp::Ordering::Greater)
    } else {
        Some(std::cmp::Ordering::Equal)
    }
}

} // verus!
