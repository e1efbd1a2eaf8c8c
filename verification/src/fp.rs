//! Binary64 scalars, carried as their IEEE 754 bit patterns.
//!
//! Every scalar in this kernel is an IEEE 754 binary64 value represented by
//! its 64-bit pattern (`u64`). Structural operations — sign tests, negation,
//! absolute value, equality and ordering of values, conversion to an 8-bit
//! channel — are defined directly on the bits and verified here. Rounded
//! arithmetic (addition, multiplication, square root, sine, ...) goes through
//! a software IEEE 754 implementation behind trusted wrappers; each such
//! operation is a pure function of the operand bits and is named by an
//! uninterpreted spec function.

use vstd::prelude::*;

verus! {

/// Sign bit of a binary64 pattern.
pub const SIGN_MASK: u64 = 0x8000000000000000;
/// All bits of a binary64 pattern except the sign bit.
pub const ABS_MASK: u64 = 0x7fffffffffffffff;
/// Exponent field of a binary64 pattern.
pub const EXP_MASK: u64 = 0x7ff0000000000000;
/// Fraction (significand) field of a binary64 pattern.
pub const FRAC_MASK: u64 = 0x000fffffffffffff;

/// Bit pattern of +0.0.
pub const F_ZERO: u64 = 0x0000000000000000;
/// Bit pattern of 1.0.
pub const F_ONE: u64 = 0x3ff0000000000000;
/// Bit pattern of -1.0.
pub const F_NEG_ONE: u64 = 0xbff0000000000000;
/// Bit pattern of 2.0.
pub const F_TWO: u64 = 0x4000000000000000;
/// Bit pattern of 4.0.
pub const F_FOUR: u64 = 0x4010000000000000;
/// Bit pattern of 255.0.
pub const F_255: u64 = 0x406fe00000000000;
/// Bit pattern of 256.0.
pub const F_256: u64 = 0x4070000000000000;
/// Bit pattern of 1e-5, the tolerance of approximate equality.
pub const F_APPROX_EPS: u64 = 0x3ee4f8b588e368f1;
/// Bit pattern of 1.7e-16, the correction added after normalization.
pub const F_NUDGE: u64 = 0x3ca87fe49aab41e0;

/// A pattern denotes NaN iff its exponent field is all ones and its
/// fraction field is non-zero.
pub open spec fn f64_is_nan(a: u64) -> bool {
    a & EXP_MASK == EXP_MASK && a & FRAC_MASK != 0
}

/// IEEE 754 equality of the values behind two patterns: NaN equals nothing,
/// +0.0 equals -0.0, and otherwise equal values have equal patterns.
pub open spec fn f64_eq(a: u64, b: u64) -> bool {
    &&& !f64_is_nan(a)
    &&& !f64_is_nan(b)
    &&& (a == b || (a & ABS_MASK == 0 && b & ABS_MASK == 0))
}

/// IEEE 754 negation: the sign bit flipped, all other bits kept.
pub open spec fn f64_neg(a: u64) -> u64 {
    a ^ SIGN_MASK
}

/// IEEE 754 absolute value: the sign bit cleared, all other bits kept.
pub open spec fn f64_abs(a: u64) -> u64 {
    a & ABS_MASK
}

/// A pattern's value on the number line extended with infinities, scaled so
/// that distinct finite values map to distinct integers: non-negative
/// patterns in pattern order, negative patterns in reverse pattern order.
/// Both zeros map to 0. Meaningful only for non-NaN patterns.
pub open spec fn f64_ordinal(a: u64) -> int {
    if a & SIGN_MASK == 0 {
        a as int
    } else {
        -((a & ABS_MASK) as int)
    }
}

/// IEEE 754 `<` on the values behind two patterns: false if either is NaN,
/// otherwise the order of the values. On non-NaN patterns the value order is
/// the order of `f64_ordinal`, because within one sign the packed
/// exponent-then-fraction layout is monotone in the value.
pub open spec fn f64_lt(a: u64, b: u64) -> bool {
    &&& !f64_is_nan(a)
    &&& !f64_is_nan(b)
    &&& f64_ordinal(a) < f64_ordinal(b)
}

/// The unit value (1.0 or -1.0) carrying the sign bit of `a`.
pub open spec fn f64_sign_unit(a: u64) -> u64 {
    if a & SIGN_MASK == 0 {
        F_ONE
    } else {
        F_NEG_ONE
    }
}

/// The value behind a positive finite pattern below 256.0, truncated to an
/// integer: zero when the exponent is below the bias (value below 1.0),
/// otherwise the leading bits of the significand with its implicit one.
pub open spec fn f64_trunc_small(a: u64) -> u64 {
    if a >> 52 < 1023 {
        0
    } else {
        ((a & FRAC_MASK) | 0x0010000000000000) >> ((52 - ((a >> 52) - 1023)) as u64)
    }
}

/// The saturating conversion of the value behind a pattern to `u8`, as the
/// target language's numeric cast defines it: NaN to 0, negative values to 0,
/// values of 256.0 and above to 255, and other values truncated toward zero.
pub open spec fn f64_as_u8(a: u64) -> u8 {
    if f64_is_nan(a) || a & SIGN_MASK != 0 {
        0
    } else if a >= F_256 {
        255
    } else {
        f64_trunc_small(a) as u8
    }
}

/// Sum of two binary64 values, as a function of their bit patterns.
pub uninterp spec fn fadd(a: u64, b: u64) -> u64;

/// Difference of two binary64 values, as a function of their bit patterns.
pub uninterp spec fn fsub(a: u64, b: u64) -> u64;

/// Product of two binary64 values, as a function of their bit patterns.
pub uninterp spec fn fmul(a: u64, b: u64) -> u64;

/// Quotient of two binary64 values, as a function of their bit patterns.
pub uninterp spec fn fdiv(a: u64, b: u64) -> u64;

/// Square root of a binary64 value, as a function of its bit pattern.
pub uninterp spec fn fsqrt(a: u64) -> u64;

/// Sine of a binary64 value, as a function of its bit pattern.
pub uninterp spec fn fsin(a: u64) -> u64;

/// Cosine of a binary64 value, as a function of its bit pattern.
pub uninterp spec fn fcos(a: u64) -> u64;

/// Relies on `const_soft_float::soft_f64::SoftF64::add`: IEEE 754 binary64
/// addition (round to nearest, ties to even), a pure function of the operand
/// bits. Sums of 0.0 and 1.0 are exact, and an exact zero sum of non-zero
/// rounded operands is +0.0.
#[verifier::external_body]
pub(crate) fn add_bits(a: u64, b: u64) -> (r: u64)
    ensures
        r == fadd(a, b),
        a == F_ONE && b == F_ZERO ==> r == F_ONE,
        a == F_ZERO && b == F_ONE ==> r == F_ONE,
        a == F_ZERO && b == F_ZERO ==> r == F_ZERO,
{
    const_soft_float::soft_f64::SoftF64::from_bits(a)
        .add(const_soft_float::soft_f64::SoftF64::from_bits(b))
        .to_bits()
}

/// Relies on `const_soft_float::soft_f64::SoftF64::sub`: IEEE 754 binary64
/// subtraction (round to nearest, ties to even), a pure function of the
/// operand bits. Differences of 0.0 and 1.0 are exact, and an exact zero
/// difference of equal operands is +0.0.
#[verifier::external_body]
pub(crate) fn sub_bits(a: u64, b: u64) -> (r: u64)
    ensures
        r == fsub(a, b),
        a == F_ONE && b == F_ONE ==> r == F_ZERO,
        a == F_ZERO && b == F_ZERO ==> r == F_ZERO,
        a == F_ONE && b == F_ZERO ==> r == F_ONE,
{
    const_soft_float::soft_f64::SoftF64::from_bits(a)
        .sub(const_soft_float::soft_f64::SoftF64::from_bits(b))
        .to_bits()
}

/// Relies on `const_soft_float::soft_f64::SoftF64::mul`: IEEE 754 binary64
/// multiplication (round to nearest, ties to even), a pure function of the
/// operand bits.
#[verifier::external_body]
pub(crate) fn mul_bits(a: u64, b: u64) -> (r: u64)
    ensures
        r == fmul(a, b),
{
    const_soft_float::soft_f64::SoftF64::from_bits(a)
        .mul(const_soft_float::soft_f64::SoftF64::from_bits(b))
        .to_bits()
}

/// Relies on `const_soft_float::soft_f64::SoftF64::div`: IEEE 754 binary64
/// division (round to nearest, ties to even), a pure function of the operand
/// bits.
#[verifier::external_body]
pub(crate) fn div_bits(a: u64, b: u64) -> (r: u64)
    ensures
        r == fdiv(a, b),
{
    const_soft_float::soft_f64::SoftF64::from_bits(a)
        .div(const_soft_float::soft_f64::SoftF64::from_bits(b))
        .to_bits()
}

/// Relies on `const_soft_float::soft_f64::SoftF64::sqrt`: correctly rounded
/// IEEE 754 binary64 square root, a pure function of the operand bits.
#[verifier::external_body]
pub(crate) fn sqrt_bits(a: u64) -> (r: u64)
    ensures
        r == fsqrt(a),
{
    const_soft_float::soft_f64::SoftF64::from_bits(a).sqrt().to_bits()
}

/// Relies on `const_soft_float::soft_f64::SoftF64::sin`: binary64 sine,
/// a pure function of the operand bits.
#[verifier::external_body]
pub(crate) fn sin_bits(a: u64) -> (r: u64)
    ensures
        r == fsin(a),
{
    const_soft_float::soft_f64::SoftF64::from_bits(a).sin().to_bits()
}

/// Relies on `const_soft_float::soft_f64::SoftF64::cos`: binary64 cosine,
/// a pure function of the operand bits.
#[verifier::external_body]
pub(crate) fn cos_bits(a: u64) -> (r: u64)
    ensures
        r == fcos(a),
{
    const_soft_float::soft_f64::SoftF64::from_bits(a).cos().to_bits()
}

/// Whether the pattern denotes NaN.
pub fn is_nan_bits(a: u64) -> (r: bool)
    ensures
        r == f64_is_nan(a),
{
    a & EXP_MASK == EXP_MASK && a & FRAC_MASK != 0
}

/// IEEE 754 equality of the values behind two patterns.
pub fn eq_bits(a: u64, b: u64) -> (r: bool)
    ensures
        r == f64_eq(a, b),
{
    if is_nan_bits(a) || is_nan_bits(b) {
        false
    } else {
        a == b || (a & ABS_MASK == 0 && b & ABS_MASK == 0)
    }
}

/// IEEE 754 negation of the value behind a pattern.
pub fn neg_bits(a: u64) -> (r: u64)
    ensures
        r == f64_neg(a),
{
    a ^ SIGN_MASK
}

/// IEEE 754 absolute value of the value behind a pattern.
pub fn abs_bits(a: u64) -> (r: u64)
    ensures
        r == f64_abs(a),
{
    a & ABS_MASK
}

/// IEEE 754 `<` on the values behind two patterns.
pub fn lt_bits(a: u64, b: u64) -> (r: bool)
    ensures
        r == f64_lt(a, b),
{
    proof {
        assert(b & 0x8000000000000000u64 == 0 ==> b & 0x7fffffffffffffffu64 == b)
            by (bit_vector);
        assert(a & 0x8000000000000000u64 == 0 ==> a & 0x7fffffffffffffffu64 == a)
            by (bit_vector);
    }
    if is_nan_bits(a) || is_nan_bits(b) {
        false
    } else {
        let a_neg = a & SIGN_MASK != 0;
        let b_neg = b & SIGN_MASK != 0;
        if a_neg && b_neg {
            b & ABS_MASK < a & ABS_MASK
        } else if a_neg {
            !(a & ABS_MASK == 0 && b & ABS_MASK == 0)
        } else if b_neg {
            false
        } else {
            a < b
        }
    }
}

/// The unit value carrying the sign bit of `a`.
pub fn sign_unit_bits(a: u64) -> (r: u64)
    ensures
        r == f64_sign_unit(a),
{
    if a & SIGN_MASK == 0 {
        F_ONE
    } else {
        F_NEG_ONE
    }
}

/// The saturating conversion of the value behind a pattern to `u8`.
pub fn as_u8_bits(a: u64) -> (r: u8)
    ensures
        r == f64_as_u8(a),
{
    if is_nan_bits(a) || a & SIGN_MASK != 0 {
        0
    } else if a >= F_256 {
        255
    } else {
        proof {
            assert(a < 0x4070000000000000u64 ==> a >> 52u64 <= 1030) by (bit_vector);
        }
        let e = a >> 52;
        if e < 1023 {
            0
        } else {
            let shift = 52 - (e - 1023);
            (#[verifier::truncate] ((((a & FRAC_MASK) | 0x0010000000000000) >> shift) as u8))
        }
    }
}

} // verus!

