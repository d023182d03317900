//! The float carrier of the value model: IEEE-754 binary64 values held as
//! their `u64` bit patterns.
//!
//! Classification, equality and ordering are plain bit logic and are
//! implemented and verified here. Arithmetic, rounding and conversions are
//! done by outside soft-float code behind trusted wrappers; each result is
//! named by an uninterpreted spec function, so that the contracts above can
//! state exactly which operation produced a value.

use vstd::prelude::*;
use rustc_apfloat::Float as ApFloat;

verus! {

/// Sign bit of a binary64 bit pattern.
pub const F64_SIGN_MASK: u64 = 0x8000_0000_0000_0000;

/// All bits but the sign.
pub const F64_ABS_MASK: u64 = 0x7FFF_FFFF_FFFF_FFFF;

/// Exponent field (also the bit pattern of positive infinity).
pub const F64_EXP_MASK: u64 = 0x7FF0_0000_0000_0000;

/// A binary64 value is NaN when its exponent field is saturated and its
/// significand is non-zero, i.e. its magnitude bits exceed infinity's.
pub open spec fn f64_is_nan(b: u64) -> bool {
    (b & F64_ABS_MASK) > F64_EXP_MASK
}

/// Positive or negative zero.
pub open spec fn f64_is_zero(b: u64) -> bool {
    (b & F64_ABS_MASK) == 0
}

/// IEEE-754 equality on bit patterns: NaN equals nothing (itself included),
/// the two zeros are equal, and every other value has a unique bit pattern.
pub open spec fn f64_eq(a: u64, b: u64) -> bool {
    &&& !f64_is_nan(a)
    &&& !f64_is_nan(b)
    &&& (a == b || (f64_is_zero(a) && f64_is_zero(b)))
}

/// IEEE-754 "less than" on bit patterns. For non-NaN operands the order of
/// the values agrees with the order of the bit patterns read as signed
/// integers, with the sense flipped when both are negative; the two zeros
/// are equal. This is the standard integer formulation of the float
/// comparison, as soft-float libraries implement it.
pub open spec fn f64_lt(a: u64, b: u64) -> bool {
    if f64_is_nan(a) || f64_is_nan(b) {
        false
    } else if f64_is_zero(a) && f64_is_zero(b) {
        false
    } else if (a as i64) & (b as i64) >= 0 {
        (a as i64) < (b as i64)
    } else {
        (a as i64) > (b as i64)
    }
}

/// IEEE-754 "less than or equal" on bit patterns.
pub open spec fn f64_le(a: u64, b: u64) -> bool {
    f64_lt(a, b) || f64_eq(a, b)
}

/// Exec check for NaN, proved against `f64_is_nan`.
pub fn is_nan_bits(b: u64) -> (r: bool)
    ensures
        r == f64_is_nan(b),
{
    (b & F64_ABS_MASK) > F64_EXP_MASK
}

/// Exec check for a zero of either sign, proved against `f64_is_zero`.
pub fn is_zero_bits(b: u64) -> (r: bool)
    ensures
        r == f64_is_zero(b),
{
    (b & F64_ABS_MASK) == 0
}

/// Exec IEEE equality, proved against `f64_eq`.
pub fn eq_bits(a: u64, b: u64) -> (r: bool)
    ensures
        r == f64_eq(a, b),
{
    !is_nan_bits(a) && !is_nan_bits(b) && (a == b || (is_zero_bits(a) && is_zero_bits(b)))
}

/// Exec IEEE "less than", proved against `f64_lt`.
pub fn lt_bits(a: u64, b: u64) -> (r: bool)
    ensures
        r == f64_lt(a, b),
{
    if is_nan_bits(a) || is_nan_bits(b) {
        false
    } else if is_zero_bits(a) && is_zero_bits(b) {
        false
    } else {
        let sa = a as i64;
        let sb = b as i64;
        if sa & sb >= 0 {
            sa < sb
        } else {
            sa > sb
        }
    }
}

/// Exec IEEE "less than or equal", proved against `f64_le`.
pub fn le_bits(a: u64, b: u64) -> (r: bool)
    ensures
        r == f64_le(a, b),
{
    lt_bits(a, b) || eq_bits(a, b)
}

/// IEEE negation is a pure sign flip, for every operand including NaN.
pub open spec fn f64_neg(b: u64) -> u64 {
    b ^ F64_SIGN_MASK
}

/// Exec negation, proved against `f64_neg`.
pub fn neg_bits(b: u64) -> (r: u64)
    ensures
        r == f64_neg(b),
{
    b ^ F64_SIGN_MASK
}

/// The binary64 sum of the two operands, rounded to nearest-even.
pub uninterp spec fn add_bits(a: u64, b: u64) -> u64;

/// The binary64 difference of the two operands, rounded to nearest-even.
pub uninterp spec fn sub_bits(a: u64, b: u64) -> u64;

/// The binary64 product of the two operands, rounded to nearest-even.
pub uninterp spec fn mul_bits(a: u64, b: u64) -> u64;

/// The binary64 quotient of the two operands, rounded to nearest-even.
pub uninterp spec fn div_bits(a: u64, b: u64) -> u64;

/// The largest integral binary64 value not above the operand.
pub uninterp spec fn floor_bits(b: u64) -> u64;

/// The operand rounded toward zero to an integral binary64 value.
pub uninterp spec fn trunc_bits(b: u64) -> u64;

/// The operand rounded to the nearest integral binary64 value, ties away
/// from zero.
pub uninterp spec fn round_bits(b: u64) -> u64;

/// The operand raised to a small integer power by binary exponentiation.
pub uninterp spec fn powi_bits(b: u64, n: i32) -> u64;

/// The binary64 value nearest to the given integer.
pub uninterp spec fn i64_to_f64(i: i64) -> u64;

/// The integer the operand converts to under Rust `as`-cast semantics:
/// truncation toward zero, saturating at the `i64` bounds, NaN giving 0.
pub uninterp spec fn f64_to_i64(b: u64) -> i64;

/// A numeral with a hexadecimal prefix after its optional sign. The
/// decimal coercion never treats these as numbers; they are also the one
/// input family whose parse the soft-float library does not handle
/// totally, so the parse wrapper excludes them by contract.
pub open spec fn hex_prefixed(s: Seq<u8>) -> bool {
    let t = if s.len() > 0 && (s[0] == 43 || s[0] == 45) {
        s.skip(1)
    } else {
        s
    };
    t.len() >= 2 && t[0] == 48 && (t[1] == 120 || t[1] == 88)
}

/// What the soft-float decimal parser returns for the given bytes, or
/// `None` when they do not spell a decimal float.
pub uninterp spec fn parse_f64_bits(s: Seq<u8>) -> Option<u64>;

/// The decimal rendering of the operand.
pub uninterp spec fn fmt_f64_bits(b: u64) -> Seq<u8>;

/// Relies on const_soft_float's `SoftF64::add`: the IEEE sum of the bits,
/// a function of the operands alone.
#[verifier::external_body]
pub fn f_add(a: u64, b: u64) -> (r: u64)
    ensures
        r == add_bits(a, b),
{
    const_soft_float::soft_f64::SoftF64::from_bits(a).add(
        const_soft_float::soft_f64::SoftF64::from_bits(b),
    ).to_bits()
}

/// Relies on const_soft_float's `SoftF64::sub`.
#[verifier::external_body]
pub fn f_sub(a: u64, b: u64) -> (r: u64)
    ensures
        r == sub_bits(a, b),
{
    const_soft_float::soft_f64::SoftF64::from_bits(a).sub(
        const_soft_float::soft_f64::SoftF64::from_bits(b),
    ).to_bits()
}

/// Relies on const_soft_float's `SoftF64::mul`.
#[verifier::external_body]
pub fn f_mul(a: u64, b: u64) -> (r: u64)
    ensures
        r == mul_bits(a, b),
{
    const_soft_float::soft_f64::SoftF64::from_bits(a).mul(
        const_soft_float::soft_f64::SoftF64::from_bits(b),
    ).to_bits()
}

/// Relies on const_soft_float's `SoftF64::div`.
#[verifier::external_body]
pub fn f_div(a: u64, b: u64) -> (r: u64)
    ensures
        r == div_bits(a, b),
{
    const_soft_float::soft_f64::SoftF64::from_bits(a).div(
        const_soft_float::soft_f64::SoftF64::from_bits(b),
    ).to_bits()
}

/// Relies on const_soft_float's `SoftF64::floor`.
#[verifier::external_body]
pub fn f_floor(b: u64) -> (r: u64)
    ensures
        r == floor_bits(b),
{
    const_soft_float::soft_f64::SoftF64::from_bits(b).floor().to_bits()
}

/// Relies on const_soft_float's `SoftF64::trunc`.
#[verifier::external_body]
pub fn f_trunc(b: u64) -> (r: u64)
    ensures
        r == trunc_bits(b),
{
    const_soft_float::soft_f64::SoftF64::from_bits(b).trunc().to_bits()
}

/// Relies on const_soft_float's `SoftF64::round` (ties away from zero).
#[verifier::external_body]
pub fn f_round(b: u64) -> (r: u64)
    ensures
        r == round_bits(b),
{
    const_soft_float::soft_f64::SoftF64::from_bits(b).round().to_bits()
}

/// Relies on const_soft_float's `SoftF64::powi`: binary exponentiation,
/// with the reciprocal taken for a negative power.
#[verifier::external_body]
pub fn f_powi(b: u64, n: i32) -> (r: u64)
    ensures
        r == powi_bits(b, n),
{
    const_soft_float::soft_f64::SoftF64::from_bits(b).powi(n).to_bits()
}

/// Relies on rustc_apfloat's `ieee::Double::from_i128`: the conversion of
/// an integer to the nearest binary64 value. The conversion never yields
/// NaN, yields a zero exactly for zero, and is exact for magnitudes up to
/// 2^53, where truncating back returns the integer.
#[verifier::external_body]
pub fn f_from_i64(i: i64) -> (r: u64)
    ensures
        r == i64_to_f64(i),
        !f64_is_nan(r),
        f64_is_zero(r) <==> i == 0,
        -0x20_0000_0000_0000 <= i <= 0x20_0000_0000_0000 ==> f64_to_i64(r) == i,
{
    rustc_apfloat::ieee::Double::from_i128(i as i128).value.to_bits() as u64
}

/// Relies on rustc_apfloat's `ieee::Double::to_i128`: conversion toward
/// zero with deterministic saturation at the width's bounds and 0 for NaN,
/// matching Rust's float-to-int `as` cast.
#[verifier::external_body]
pub fn f_to_i64(b: u64) -> (r: i64)
    ensures
        r == f64_to_i64(b),
{
    rustc_apfloat::ieee::Double::from_bits(b as u128).to_i128(64).value as i64
}

/// Relies on rustc_apfloat's decimal parser for `ieee::Double`; bytes that
/// are not valid UTF-8 or not a decimal numeral give `None`. Inputs with a
/// hexadecimal prefix are excluded: on those the library's hexadecimal
/// path is not total.
#[verifier::external_body]
pub fn f_parse(s: &[u8]) -> (r: Option<u64>)
    requires
        !hex_prefixed(s@),
    ensures
        r == parse_f64_bits(s@),
{
    core::str::from_utf8(s).ok().and_then(|t| t.parse::<rustc_apfloat::ieee::Double>().ok()).map(
        |d| d.to_bits() as u64,
    )
}

/// Relies on rustc_apfloat's decimal rendering for `ieee::Double`, a
/// function of the bits alone.
#[verifier::external_body]
pub fn f_fmt(b: u64) -> (r: Vec<u8>)
    ensures
        r@ == fmt_f64_bits(b),
{
    format!("{}", rustc_apfloat::ieee::Double::from_bits(b as u128)).into_bytes()
}

} // verus!
