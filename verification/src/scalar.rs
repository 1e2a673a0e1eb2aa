//! Double-precision numbers held as bit patterns.
//!
//! Coordinates travel through this crate as the 64-bit patterns of IEEE 754
//! binary64 values. Nothing here does arithmetic on them; the only questions
//! asked are whether a pattern is a NaN and how two patterns compare, and both
//! can be answered from the sign bit and the remaining 63 bits alone.
use vstd::prelude::*;

verus! {

/// The sign bit of a binary64 pattern.
pub const SIGN_BIT: u64 = 0x8000_0000_0000_0000;

/// The pattern of positive infinity: every larger magnitude is a NaN.
pub const INFINITY_BITS: u64 = 0x7ff0_0000_0000_0000;

/// The pattern with its sign bit cleared.
pub open spec fn magnitude(bits: u64) -> int {
    if bits >= SIGN_BIT {
        bits - SIGN_BIT
    } else {
        bits as int
    }
}

/// Whether the pattern is a NaN.
pub open spec fn is_nan(bits: u64) -> bool {
    magnitude(bits) > INFINITY_BITS
}

/// An integer that orders the patterns that are not NaN as the numbers they
/// stand for: the magnitude, negated where the sign bit is set. Both zeros
/// have rank 0.
pub open spec fn rank(bits: u64) -> int {
    if bits >= SIGN_BIT {
        -magnitude(bits)
    } else {
        magnitude(bits)
    }
}

/// `a == b` as numbers: false as soon as one side is a NaN.
pub open spec fn num_eq(a: u64, b: u64) -> bool {
    !is_nan(a) && !is_nan(b) && rank(a) == rank(b)
}

/// `a < b` as numbers: false as soon as one side is a NaN.
pub open spec fn num_lt(a: u64, b: u64) -> bool {
    !is_nan(a) && !is_nan(b) && rank(a) < rank(b)
}

/// `a <= b` as numbers: false as soon as one side is a NaN.
pub open spec fn num_le(a: u64, b: u64) -> bool {
    !is_nan(a) && !is_nan(b) && rank(a) <= rank(b)
}

/// The pattern with its sign bit cleared.
pub fn abs_bits(bits: u64) -> (m: u64)
    ensures
        m == magnitude(bits),
        m < SIGN_BIT,
{
    if bits >= SIGN_BIT {
        bits - SIGN_BIT
    } else {
        bits
    }
}

/// Whether the pattern is a NaN.
pub fn nan(bits: u64) -> (r: bool)
    ensures
        r == is_nan(bits),
{
    abs_bits(bits) > INFINITY_BITS
}

/// Numeric equality of two patterns.
pub fn eq(a: u64, b: u64) -> (r: bool)
    ensures
        r == num_eq(a, b),
{
    if nan(a) || nan(b) {
        return false;
    }
    let ma: u64 = abs_bits(a);
    let mb: u64 = abs_bits(b);
    if ma == 0 && mb == 0 {
        true
    } else {
        a == b
    }
}

/// Numeric `<` of two patterns.
pub fn lt(a: u64, b: u64) -> (r: bool)
    ensures
        r == num_lt(a, b),
{
    if nan(a) || nan(b) {
        return false;
    }
    let ma: u64 = abs_bits(a);
    let mb: u64 = abs_bits(b);
    let a_neg: bool = a >= SIGN_BIT;
    let b_neg: bool = b >= SIGN_BIT;
    if a_neg {
        if b_neg {
            mb < ma
        } else {
            ma != 0 || mb != 0
        }
    } else {
        if b_neg {
            false
        } else {
            ma < mb
        }
    }
}

/// Numeric `<=` of two patterns.
pub fn le(a: u64, b: u64) -> (r: bool)
    ensures
        r == num_le(a, b),
{
    if nan(a) || nan(b) {
        return false;
    }
    !lt(b, a)
}

/// Numeric `>` of two patterns.
pub fn gt(a: u64, b: u64) -> (r: bool)
    ensures
        r == num_lt(b, a),
{
    lt(b, a)
}

/// Numeric `>=` of two patterns.
pub fn ge(a: u64, b: u64) -> (r: bool)
    ensures
        r == num_le(b, a),
{
    le(b, a)
}

/// The pattern of the greatest finite double.
pub const GREATEST: u64 = 0x7fef_ffff_ffff_ffff;

/// The pattern of the least finite double.
pub const LEAST: u64 = 0xffef_ffff_ffff_ffff;

/// The lesser of two numbers, a NaN yielding to the other. Of two that are
/// equal as numbers it is the first.
pub open spec fn min_of(a: u64, b: u64) -> u64 {
    if is_nan(a) {
        b
    } else if is_nan(b) {
        a
    } else if num_lt(b, a) {
        b
    } else {
        a
    }
}

/// The greater of two numbers, a NaN yielding to the other. Of two that are
/// equal as numbers it is the first.
pub open spec fn max_of(a: u64, b: u64) -> u64 {
    if is_nan(a) {
        b
    } else if is_nan(b) {
        a
    } else if num_lt(a, b) {
        b
    } else {
        a
    }
}

/// The lesser of two numbers, a NaN yielding to the other.
pub fn min(a: u64, b: u64) -> (m: u64)
    ensures
        m == min_of(a, b),
        m == a || m == b,
        !is_nan(a) && !is_nan(b) ==> num_le(m, a) && num_le(m, b),
{
    if nan(a) {
        b
    } else if nan(b) {
        a
    } else if lt(b, a) {
        b
    } else {
        a
    }
}

/// The greater of two numbers, a NaN yielding to the other.
pub fn max(a: u64, b: u64) -> (m: u64)
    ensures
        m == max_of(a, b),
        m == a || m == b,
        !is_nan(a) && !is_nan(b) ==> num_le(a, m) && num_le(b, m),
{
    if nan(a) {
        b
    } else if nan(b) {
        a
    } else if lt(a, b) {
        b
    } else {
        a
    }
}

} // verus!
