//! Scalars as IEEE 754 binary64 bit patterns.
//!
//! Every scalar in this crate is carried as a `u64` holding the raw encoding
//! of an IEEE 754 double-precision number. The four rounded arithmetic
//! operations, the ordering predicate, and the two exponent-manipulation
//! primitives are performed by the `rustc_apfloat` software floating-point
//! library and are named here by uninterpreted spec functions: the same bit
//! patterns always give the same result, but the rounding behaviour itself is
//! not restated. Sign and classification queries, which are plain bit tests
//! on the encoding, are implemented and verified directly.

use vstd::prelude::*;

use rustc_apfloat::Float;
use rustc_apfloat::Round;
use rustc_apfloat::ieee::Double;

verus! {

/// Positive zero (`+0.0`).
pub const P_ZERO: u64 = 0x0000000000000000;
/// Negative zero (`-0.0`).
pub const N_ZERO: u64 = 0x8000000000000000;
/// The encoding of `1.0`.
pub const ONE: u64 = 0x3FF0000000000000;
/// The encoding of `2.0`.
pub const TWO: u64 = 0x4000000000000000;
/// Positive infinity.
pub const P_INF: u64 = 0x7FF0000000000000;
/// Negative infinity.
pub const N_INF: u64 = 0xFFF0000000000000;
/// A quiet not-a-number with empty payload.
pub const QNAN: u64 = 0x7FF8000000000000;

/// `fcmp` result: the left value is smaller.
pub const CMP_LT: u8 = 0;
/// `fcmp` result: the two values are equal.
pub const CMP_EQ: u8 = 1;
/// `fcmp` result: the left value is greater.
pub const CMP_GT: u8 = 2;
/// `fcmp` result: unordered (at least one not-a-number).
pub const CMP_UN: u8 = 3;

/// The sum of two binary64 values, rounded to nearest, ties to even.
pub uninterp spec fn add_bits(a: u64, b: u64) -> u64;

/// The difference of two binary64 values, rounded to nearest, ties to even.
pub uninterp spec fn sub_bits(a: u64, b: u64) -> u64;

/// The product of two binary64 values, rounded to nearest, ties to even.
pub uninterp spec fn mul_bits(a: u64, b: u64) -> u64;

/// The quotient of two binary64 values, rounded to nearest, ties to even.
pub uninterp spec fn div_bits(a: u64, b: u64) -> u64;

/// The IEEE 754 comparison of two binary64 values, as one of the `CMP_*` codes.
pub uninterp spec fn cmp_bits(a: u64, b: u64) -> u8;

/// A binary64 value scaled by a power of two, rounded to nearest, ties to even.
pub uninterp spec fn scalb_bits(a: u64, n: i32) -> u64;

/// The floor of the base-two logarithm of the magnitude of a binary64 value.
pub uninterp spec fn ilogb_bits(a: u64) -> i32;

/// Whether the encoding is of a finite value (exponent field not all ones).
pub open spec fn is_finite_bits(x: u64) -> bool {
    (x >> 52) & 0x7FF != 0x7FF
}

/// Whether the encoding is of a not-a-number.
pub open spec fn is_nan_bits(x: u64) -> bool {
    (x >> 52) & 0x7FF == 0x7FF && x & 0x000FFFFFFFFFFFFF != 0
}

/// Whether the sign bit of the encoding is set.
pub open spec fn sign_bits(x: u64) -> bool {
    x >> 63 == 1
}

/// The encoding with the sign bit flipped: IEEE 754 negation.
pub open spec fn neg_bits(x: u64) -> u64 {
    x ^ N_ZERO
}

/// The encoding with the sign bit cleared: IEEE 754 magnitude.
pub open spec fn abs_bits(x: u64) -> u64 {
    x & 0x7FFFFFFFFFFFFFFF
}

/// `a > b` in the IEEE 754 ordering (false when unordered).
pub open spec fn gt_bits(a: u64, b: u64) -> bool {
    cmp_bits(a, b) == CMP_GT
}

/// `a < b` in the IEEE 754 ordering (false when unordered).
pub open spec fn lt_bits(a: u64, b: u64) -> bool {
    cmp_bits(a, b) == CMP_LT
}

/// Relies on `rustc_apfloat`'s `Float::add_r` on `ieee::Double` (round to
/// nearest, ties to even). In that rounding mode the sum of two zeros is
/// `+0.0` unless both are `-0.0`.
#[verifier::external_body]
pub(crate) fn fadd(a: u64, b: u64) -> (r: u64)
    ensures
        r == add_bits(a, b),
        a == P_ZERO && (b == P_ZERO || b == N_ZERO) ==> r == P_ZERO,
{
    Double::from_bits(a as u128).add_r(Double::from_bits(b as u128), Round::NearestTiesToEven)
        .value
        .to_bits() as u64
}

/// Relies on `rustc_apfloat`'s `Float::sub_r` on `ieee::Double` (round to
/// nearest, ties to even). In that rounding mode `+0.0` minus a zero of
/// either sign is `+0.0`.
#[verifier::external_body]
pub(crate) fn fsub(a: u64, b: u64) -> (r: u64)
    ensures
        r == sub_bits(a, b),
        a == P_ZERO && (b == P_ZERO || b == N_ZERO) ==> r == P_ZERO,
{
    Double::from_bits(a as u128).sub_r(Double::from_bits(b as u128), Round::NearestTiesToEven)
        .value
        .to_bits() as u64
}

/// Relies on `rustc_apfloat`'s `Float::mul_r` on `ieee::Double` (round to
/// nearest, ties to even). The product of a finite value and a zero is a
/// zero, with the sign given by the sign rule.
#[verifier::external_body]
pub(crate) fn fmul(a: u64, b: u64) -> (r: u64)
    ensures
        r == mul_bits(a, b),
        is_finite_bits(a) && b == P_ZERO ==> (r == P_ZERO || r == N_ZERO),
{
    Double::from_bits(a as u128).mul_r(Double::from_bits(b as u128), Round::NearestTiesToEven)
        .value
        .to_bits() as u64
}

/// Relies on `rustc_apfloat`'s `Float::div_r` on `ieee::Double` (round to
/// nearest, ties to even).
#[verifier::external_body]
pub(crate) fn fdiv(a: u64, b: u64) -> (r: u64)
    ensures
        r == div_bits(a, b),
{
    Double::from_bits(a as u128).div_r(Double::from_bits(b as u128), Round::NearestTiesToEven)
        .value
        .to_bits() as u64
}

/// Relies on `rustc_apfloat`'s `PartialOrd` for `ieee::Double`, which
/// implements the IEEE 754 comparison predicate: not-a-number compares
/// unordered with everything, zeros of both signs compare equal.
#[verifier::external_body]
pub(crate) fn fcmp(a: u64, b: u64) -> (r: u8)
    ensures
        r == cmp_bits(a, b),
{
    match Double::from_bits(a as u128).partial_cmp(&Double::from_bits(b as u128)) {
        Some(core::cmp::Ordering::Less) => 0,
        Some(core::cmp::Ordering::Equal) => 1,
        Some(core::cmp::Ordering::Greater) => 2,
        None => 3,
    }
}

/// Relies on `rustc_apfloat`'s `Float::scalbn_r` on `ieee::Double` (round to
/// nearest, ties to even): multiplication by a power of two, with gradual
/// underflow and overflow to infinity.
#[verifier::external_body]
pub(crate) fn fscalb(a: u64, n: i32) -> (r: u64)
    ensures
        r == scalb_bits(a, n),
{
    Double::from_bits(a as u128).scalbn_r(n, Round::NearestTiesToEven).to_bits() as u64
}

/// Relies on `rustc_apfloat`'s `Float::ilogb` on `ieee::Double`: the floor of
/// the base-two logarithm of the magnitude, exact also for subnormal values.
#[verifier::external_body]
pub(crate) fn filogb(a: u64) -> (r: i32)
    ensures
        r == ilogb_bits(a),
{
    Double::from_bits(a as u128).ilogb()
}

/// IEEE 754 negation: flip the sign bit of the encoding.
pub fn fneg(x: u64) -> (r: u64)
    ensures
        r == neg_bits(x),
{
    x ^ N_ZERO
}

/// IEEE 754 magnitude: clear the sign bit of the encoding.
pub fn fabs(x: u64) -> (r: u64)
    ensures
        r == abs_bits(x),
{
    x & 0x7FFFFFFFFFFFFFFF
}

/// Whether the encoding is of a not-a-number value.
pub fn fis_nan(x: u64) -> (r: bool)
    ensures
        r == is_nan_bits(x),
{
    (x >> 52) & 0x7FF == 0x7FF && x & 0x000FFFFFFFFFFFFF != 0
}

/// Whether the sign bit of the encoding is set.
pub fn fsign(x: u64) -> (r: bool)
    ensures
        r == sign_bits(x),
{
    x >> 63 == 1
}

} // verus!
