//! Bit-level model of the IEEE-754 binary64 scalars that tensors hold.
//!
//! Every scalar of the library is carried as the 64-bit pattern of a double.
//! Sign, magnitude, NaN-ness and the value order of two patterns are plain
//! bit arithmetic, so comparisons, maxima and masks are verified in full.
//! Rounded arithmetic and the transcendental functions are not re-derived:
//! they go through trusted wrappers whose results are named, uninterpreted
//! functions of the argument bits, and every contract above speaks of those
//! names exactly.

use vstd::prelude::*;

use rustc_apfloat::Float;
use rustc_apfloat::ieee::Double;

verus! {

/// Bits of +0.0.
pub const F_ZERO: u64 = 0;
/// Bits of 1.0.
pub const F_ONE: u64 = 0x3ff0_0000_0000_0000;
/// Bits of 0.01, the default learning rate and the weight-initialisation scale.
pub const F_CENTI: u64 = 0x3f84_7ae1_47ae_147b;
/// Bits of 1e-7, the offset that keeps the cross-entropy logarithm finite.
pub const F_TINY: u64 = 0x3e7a_d7f2_9abc_af48;
/// Bits of 2*pi, the angle scale of the Box-Muller transform.
pub const F_TWO_PI: u64 = 0x4019_21fb_5444_2d18;
/// Bits of -2.0, the radial scale of the Box-Muller transform.
pub const F_NEG_TWO: u64 = 0xc000_0000_0000_0000;

/// The sign bit of a double.
pub const SIGN_MASK: u64 = 0x8000_0000_0000_0000;
/// Everything but the sign bit: the magnitude of a double.
pub const MAG_MASK: u64 = 0x7fff_ffff_ffff_ffff;
/// Exponent all ones, mantissa zero: the magnitude of an infinity.
pub const INF_MAG: u64 = 0x7ff0_0000_0000_0000;

/// The sign bit of the pattern: 1 for negative doubles, 0 otherwise.
pub open spec fn f_sign(a: u64) -> u64 {
    a >> 63
}

/// The pattern with the sign bit cleared. For doubles of one sign, larger
/// magnitude means larger absolute value, subnormals and infinities included.
pub open spec fn f_mag(a: u64) -> u64 {
    a & MAG_MASK
}

/// The pattern encodes a NaN: exponent all ones and mantissa not zero,
/// that is, a magnitude strictly above the one of an infinity.
pub open spec fn f_is_nan(a: u64) -> bool {
    f_mag(a) > INF_MAG
}

/// The pattern encodes +0.0 or -0.0.
pub open spec fn f_is_zero(a: u64) -> bool {
    f_mag(a) == 0
}

/// The pattern encodes a finite double: neither an infinity nor a NaN.
pub open spec fn f_is_finite(a: u64) -> bool {
    f_mag(a) < INF_MAG
}

/// Strict order of the represented values; false whenever either is a NaN.
/// The two zeros are equal; otherwise a negative is below a positive, two
/// positives order as their magnitudes and two negatives the other way round.
pub open spec fn f_val_lt(a: u64, b: u64) -> bool {
    &&& !f_is_nan(a)
    &&& !f_is_nan(b)
    &&& if f_is_zero(a) && f_is_zero(b) {
        false
    } else if f_sign(a) != f_sign(b) {
        f_sign(a) == 1
    } else if f_sign(a) == 0 {
        f_mag(a) < f_mag(b)
    } else {
        f_mag(b) < f_mag(a)
    }
}

/// The represented values are equal (so +0.0 and -0.0 are); false whenever
/// either is a NaN.
pub open spec fn f_val_eq(a: u64, b: u64) -> bool {
    !f_is_nan(a) && !f_is_nan(b) && (a == b || (f_is_zero(a) && f_is_zero(b)))
}

pub open spec fn f_val_le(a: u64, b: u64) -> bool {
    f_val_lt(a, b) || f_val_eq(a, b)
}

/// The total order that reductions use: values in their usual order and
/// every NaN greatest, all NaNs tied.
pub open spec fn f_tot_lt(a: u64, b: u64) -> bool {
    if f_is_nan(a) {
        false
    } else if f_is_nan(b) {
        true
    } else {
        f_val_lt(a, b)
    }
}

/// Equality in the total order: both NaN, or equal values.
pub open spec fn f_tot_eq(a: u64, b: u64) -> bool {
    if f_is_nan(a) {
        f_is_nan(b)
    } else {
        f_val_eq(a, b)
    }
}

/// Negation of a double is exactly a flip of its sign bit.
pub open spec fn neg_bits(a: u64) -> u64 {
    a ^ SIGN_MASK
}

pub fn f_neg(a: u64) -> (r: u64)
    ensures
        r == neg_bits(a),
{
    a ^ SIGN_MASK
}

/// Two patterns with the same sign bit and the same magnitude are the same
/// pattern, and a sign bit is 0 or 1.
pub proof fn lemma_same_sign_mag(a: u64, b: u64)
    by (bit_vector)
    ensures
        (a >> 63 == b >> 63 && a & 0x7fff_ffff_ffff_ffff == b & 0x7fff_ffff_ffff_ffff) ==> a == b,
        a >> 63 == 0 || a >> 63 == 1,
        b >> 63 == 0 || b >> 63 == 1,
{
}

/// The reduction order is a total preorder: one of `<`, `>` or ties holds,
/// and they exclude one another.
pub proof fn lemma_tot_trichotomy(a: u64, b: u64)
    ensures
        f_tot_lt(a, b) || f_tot_lt(b, a) || f_tot_eq(a, b),
        f_tot_lt(a, b) ==> !f_tot_lt(b, a) && !f_tot_eq(a, b),
        f_tot_eq(a, b) ==> !f_tot_lt(a, b) && !f_tot_lt(b, a),
{
    lemma_same_sign_mag(a, b);
}

/// If `y` is not above `x` and `x` is strictly below `z`, then `y` is
/// strictly below `z`: the transitivity step the scan for a maximum needs.
pub proof fn lemma_tot_le_lt_trans(x: u64, y: u64, z: u64)
    ensures
        !f_tot_lt(x, y) && f_tot_lt(x, z) ==> f_tot_lt(y, z),
{
    lemma_same_sign_mag(x, y);
    lemma_same_sign_mag(y, z);
    lemma_same_sign_mag(x, z);
}

/// The value order agrees with itself across a chain: strictly below and
/// then at most gives strictly below, and strictness excludes the reverse.
pub proof fn lemma_val_order(a: u64, b: u64, c: u64)
    ensures
        f_val_lt(a, b) && f_val_le(b, c) ==> f_val_lt(a, c),
        f_val_le(a, b) && f_val_lt(b, c) ==> f_val_lt(a, c),
        f_val_lt(a, b) ==> !f_val_lt(b, a) && !f_val_eq(a, b),
{
    lemma_same_sign_mag(a, b);
    lemma_same_sign_mag(b, c);
    lemma_same_sign_mag(a, c);
}

/// What every draw of the uniform sampler satisfies: a non-NaN,
/// non-negative double strictly below one.
pub open spec fn uniform_outcome(s: u64) -> bool {
    !f_is_nan(s) && f_sign(s) == 0 && f_val_lt(s, F_ONE)
}

/// Executable form of the value order `f_val_lt`.
pub fn f_lt_val(a: u64, b: u64) -> (r: bool)
    ensures
        r == f_val_lt(a, b),
{
    let ma = a & MAG_MASK;
    let mb = b & MAG_MASK;
    if ma > INF_MAG || mb > INF_MAG {
        false
    } else if ma == 0 && mb == 0 {
        false
    } else if (a >> 63) != (b >> 63) {
        a >> 63 == 1
    } else if a >> 63 == 0 {
        ma < mb
    } else {
        mb < ma
    }
}

/// Executable form of the value equality `f_val_eq`.
pub fn f_eq_val(a: u64, b: u64) -> (r: bool)
    ensures
        r == f_val_eq(a, b),
{
    let ma = a & MAG_MASK;
    let mb = b & MAG_MASK;
    ma <= INF_MAG && mb <= INF_MAG && (a == b || (ma == 0 && mb == 0))
}

/// Executable form of `f_val_le`.
pub fn f_le_val(a: u64, b: u64) -> (r: bool)
    ensures
        r == f_val_le(a, b),
{
    f_lt_val(a, b) || f_eq_val(a, b)
}

/// Executable form of the reduction order `f_tot_lt`.
pub fn f_lt_tot(a: u64, b: u64) -> (r: bool)
    ensures
        r == f_tot_lt(a, b),
{
    let na = (a & MAG_MASK) > INF_MAG;
    let nb = (b & MAG_MASK) > INF_MAG;
    if na {
        false
    } else if nb {
        true
    } else {
        f_lt_val(a, b)
    }
}

pub uninterp spec fn add_bits(a: u64, b: u64) -> u64;

pub uninterp spec fn sub_bits(a: u64, b: u64) -> u64;

pub uninterp spec fn mul_bits(a: u64, b: u64) -> u64;

pub uninterp spec fn div_bits(a: u64, b: u64) -> u64;

/// Relies on `rustc_apfloat`'s `Double` addition: the IEEE-754 binary64 sum
/// (round to nearest, ties to even) of the doubles whose bits are given.
/// The result depends on the two bit patterns alone.
#[verifier::external_body]
pub fn f_add(a: u64, b: u64) -> (r: u64)
    ensures
        r == add_bits(a, b),
{
    (Double::from_bits(a as u128) + Double::from_bits(b as u128)).value.to_bits() as u64
}

/// Relies on `rustc_apfloat`'s `Double` subtraction, the IEEE-754 binary64
/// difference of the doubles whose bits are given.
#[verifier::external_body]
pub fn f_sub(a: u64, b: u64) -> (r: u64)
    ensures
        r == sub_bits(a, b),
{
    (Double::from_bits(a as u128) - Double::from_bits(b as u128)).value.to_bits() as u64
}

/// Relies on `rustc_apfloat`'s `Double` multiplication, the IEEE-754 binary64
/// product of the doubles whose bits are given.
#[verifier::external_body]
pub fn f_mul(a: u64, b: u64) -> (r: u64)
    ensures
        r == mul_bits(a, b),
{
    (Double::from_bits(a as u128) * Double::from_bits(b as u128)).value.to_bits() as u64
}

/// Relies on `rustc_apfloat`'s `Double` division, the IEEE-754 binary64
/// quotient of the doubles whose bits are given. As IEEE division: a
/// non-negative finite numerator over a positive finite denominator at
/// least as large gives a quotient in [0, 1] — the exact quotient lies
/// there and rounding to nearest cannot cross the representable bounds
/// 0.0 and 1.0.
#[verifier::external_body]
pub fn f_div(a: u64, b: u64) -> (r: u64)
    ensures
        r == div_bits(a, b),
        f_is_finite(a) && f_is_finite(b) && f_sign(a) == 0 && f_sign(b) == 0 && !f_is_zero(b)
            && f_val_le(a, b) ==> !f_is_nan(r) && f_sign(r) == 0 && f_val_le(r, F_ONE),
{
    (Double::from_bits(a as u128) / Double::from_bits(b as u128)).value.to_bits() as u64
}

pub uninterp spec fn exp_bits(a: u64) -> u64;

pub uninterp spec fn ln_bits(a: u64) -> u64;

pub uninterp spec fn sqrt_bits(a: u64) -> u64;

pub uninterp spec fn cos_bits(a: u64) -> u64;

/// Relies on `libm::exp`: e raised to the double whose bits are given.
/// The result depends on the bit pattern alone.
#[verifier::external_body]
pub fn f_exp(a: u64) -> (r: u64)
    ensures
        r == exp_bits(a),
{
    bytemuck::cast(libm::exp(bytemuck::cast(a)))
}

/// Relies on `libm::log`: the natural logarithm of the double whose bits are
/// given. The result depends on the bit pattern alone.
#[verifier::external_body]
pub fn f_ln(a: u64) -> (r: u64)
    ensures
        r == ln_bits(a),
{
    bytemuck::cast(libm::log(bytemuck::cast(a)))
}

/// Relies on `libm::sqrt`: the square root of the double whose bits are
/// given. The result depends on the bit pattern alone.
#[verifier::external_body]
pub fn f_sqrt(a: u64) -> (r: u64)
    ensures
        r == sqrt_bits(a),
{
    bytemuck::cast(libm::sqrt(bytemuck::cast(a)))
}

/// Relies on `libm::cos`: the cosine of the double whose bits are given.
/// The result depends on the bit pattern alone.
#[verifier::external_body]
pub fn f_cos(a: u64) -> (r: u64)
    ensures
        r == cos_bits(a),
{
    bytemuck::cast(libm::cos(bytemuck::cast(a)))
}

pub uninterp spec fn u32_bits(n: u32) -> u64;

/// Relies on std's exact conversion of a 32-bit integer to a double (every
/// u32 is representable) and on `libm::floor`, which is the identity on the
/// integral value and only fixes the floating type without naming it.
/// Exactness gives the stated order facts: the result is a non-negative
/// finite double, non-zero for a non-zero integer, and the conversion is
/// monotone, so a smaller or equal integer converts to a value at most it.
#[verifier::external_body]
pub fn f_from_u32(n: u32) -> (r: u64)
    ensures
        r == u32_bits(n),
        !f_is_nan(r),
        f_sign(r) == 0,
        f_is_finite(r),
        n >= 1 ==> !f_is_zero(r),
        forall|m: u32| m <= n ==> f_val_le(#[trigger] u32_bits(m), r),
{
    bytemuck::cast(libm::floor(n.into()))
}

/// Relies on `rand::random` for an independent 32-bit variate and on
/// `libm::ldexp` to scale it by 2^-32: a uniform sample from [0, 1), drawn
/// fresh on every call. Only what holds of every outcome is promised: the
/// result is a non-negative double strictly below one.
#[verifier::external_body]
pub fn f_uniform() -> (r: u64)
    ensures
        uniform_outcome(r),
{
    bytemuck::cast(libm::ldexp(rand::random::<u32>().into(), -32))
}

} // verus!
