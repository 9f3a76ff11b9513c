//! Exact arbitrary-precision arithmetic, modeled for verification.
//!
//! The calculator computes over `num`'s `BigInt` and `BigRational`. Verus sees
//! those types as opaque, so this module gives each value a mathematical
//! meaning: `bi_val` maps a `BigInt` to the integer it holds, and `rat_numer` /
//! `rat_denom` map a `BigRational` to the numerator and denominator of its
//! reduced form. Every operation the calculator needs is wrapped in a small
//! trusted function whose contract states, over those meanings, exactly what
//! `num` computes; all calculator logic is verified against these contracts.
//!
//! A `BigRational` built by `num` is always in canonical reduced form: the
//! denominator is positive, numerator and denominator are coprime, and zero is
//! `0/1` (see `Ratio::reduce` in `num-rational`). `rat_wf` captures that
//! canonical form, every wrapper returning a rational guarantees it, and
//! wrappers whose meaning depends on it require it.

use vstd::prelude::*;

verus! {

use vstd::arithmetic::power::pow;

use num::bigint::BigInt;
use num::rational::BigRational;

#[verifier::external_type_specification]
#[verifier::external_body]
pub struct ExBigInt(num::bigint::BigInt);

#[verifier::external_type_specification]
#[verifier::external_body]
#[verifier::reject_recursive_types(T)]
pub struct ExRatio<T>(num::rational::Ratio<T>);

/// The integer a `BigInt` holds.
pub uninterp spec fn bi_val(x: BigInt) -> int;

/// The numerator of the reduced form of a `BigRational`.
pub uninterp spec fn rat_numer(x: BigRational) -> int;

/// The denominator of the reduced form of a `BigRational`.
pub uninterp spec fn rat_denom(x: BigRational) -> int;

/// Absolute value, as a `nat`.
pub open spec fn iabs(a: int) -> nat {
    if a >= 0 {
        a as nat
    } else {
        (-a) as nat
    }
}

/// Greatest common divisor of two naturals (`gcd_nat(0, 0) == 0`).
pub open spec fn gcd_nat(a: nat, b: nat) -> nat
    decreases b,
{
    if b == 0 {
        a
    } else {
        gcd_nat(b, a % b)
    }
}

/// Quotient of truncating division (rounds toward zero), the division `num`
/// uses on `BigInt`.
pub open spec fn trunc_div(a: int, b: int) -> int {
    if (a < 0) != (b < 0) {
        -((iabs(a) / iabs(b)) as int)
    } else {
        (iabs(a) / iabs(b)) as int
    }
}

/// Remainder of truncating division: `a == b * trunc_div(a, b) + trunc_rem(a, b)`,
/// with the sign of the remainder following `a`.
pub open spec fn trunc_rem(a: int, b: int) -> int {
    a - b * trunc_div(a, b)
}

/// Numerator of the fraction `n / d` in canonical reduced form: coprime with
/// the denominator, carrying the fraction's sign.
pub open spec fn norm_num(n: int, d: int) -> int {
    if n == 0 {
        0
    } else {
        let g = gcd_nat(iabs(n), iabs(d)) as int;
        if d > 0 {
            n / g
        } else {
            -(n / g)
        }
    }
}

/// Denominator of the fraction `n / d` in canonical reduced form: positive,
/// coprime with the numerator, and `1` when the value is zero.
pub open spec fn norm_den(n: int, d: int) -> int {
    if n == 0 {
        1
    } else {
        let g = gcd_nat(iabs(n), iabs(d)) as int;
        if d > 0 {
            d / g
        } else {
            (-d) / g
        }
    }
}

/// Whether the pair `(n, d)` is already in canonical reduced form.
pub open spec fn is_reduced(n: int, d: int) -> bool {
    norm_num(n, d) == n && norm_den(n, d) == d
}

/// Canonical reduced form of a numerator/denominator pair.
pub open spec fn pair_wf(n: int, d: int) -> bool {
    d > 0 && is_reduced(n, d)
}

/// Canonical-form invariant of every `BigRational` this library handles.
pub open spec fn rat_wf(x: BigRational) -> bool {
    pair_wf(rat_numer(x), rat_denom(x))
}

/// The nearest integer to `n / d` (`d > 0`), half-way cases rounded away from
/// zero.
pub open spec fn round_half_away(n: int, d: int) -> int {
    if n >= 0 {
        (2 * n + d) / (2 * d)
    } else {
        -((2 * (-n) + d) / (2 * d))
    }
}

// ---------------------------------------------------------------------------
// BigInt wrappers
// ---------------------------------------------------------------------------

/// Relies on `BigInt: From<u32>`.
#[verifier::external_body]
pub fn bigint_from_u32(x: u32) -> (r: BigInt)
    ensures
        bi_val(r) == x as int,
{
    BigInt::from(x)
}

/// Relies on `BigInt: From<i64>`.
#[verifier::external_body]
pub fn bigint_from_i64(x: i64) -> (r: BigInt)
    ensures
        bi_val(r) == x as int,
{
    BigInt::from(x)
}

/// Relies on `Clone for BigInt`: the copy holds the same integer.
#[verifier::external_body]
pub fn bigint_clone(x: &BigInt) -> (r: BigInt)
    ensures
        bi_val(r) == bi_val(*x),
{
    x.clone()
}

/// Relies on `Add for &BigInt`: exact integer addition.
#[verifier::external_body]
pub fn bigint_add(a: &BigInt, b: &BigInt) -> (r: BigInt)
    ensures
        bi_val(r) == bi_val(*a) + bi_val(*b),
{
    a + b
}

/// Relies on `Sub for &BigInt`: exact integer subtraction.
#[verifier::external_body]
pub fn bigint_sub(a: &BigInt, b: &BigInt) -> (r: BigInt)
    ensures
        bi_val(r) == bi_val(*a) - bi_val(*b),
{
    a - b
}

/// Relies on `Mul for &BigInt`: exact integer multiplication.
#[verifier::external_body]
pub fn bigint_mul(a: &BigInt, b: &BigInt) -> (r: BigInt)
    ensures
        bi_val(r) == bi_val(*a) * bi_val(*b),
{
    a * b
}

/// Relies on `Div for &BigInt`: truncating division (rounds toward zero),
/// which panics on a zero divisor.
#[verifier::external_body]
pub fn bigint_div(a: &BigInt, b: &BigInt) -> (r: BigInt)
    requires
        bi_val(*b) != 0,
    ensures
        bi_val(r) == trunc_div(bi_val(*a), bi_val(*b)),
{
    a / b
}

/// Relies on `Rem for &BigInt`: remainder of truncating division, sign
/// following the dividend; panics on a zero divisor.
#[verifier::external_body]
pub fn bigint_rem(a: &BigInt, b: &BigInt) -> (r: BigInt)
    requires
        bi_val(*b) != 0,
    ensures
        bi_val(r) == trunc_rem(bi_val(*a), bi_val(*b)),
{
    a % b
}

/// Relies on `Neg for &BigInt`.
#[verifier::external_body]
pub fn bigint_neg(a: &BigInt) -> (r: BigInt)
    ensures
        bi_val(r) == -bi_val(*a),
{
    -a
}

/// Relies on `Signed::abs for BigInt`.
#[verifier::external_body]
pub fn bigint_abs(a: &BigInt) -> (r: BigInt)
    ensures
        bi_val(r) == iabs(bi_val(*a)),
{
    num::Signed::abs(a)
}

/// Relies on `Pow<usize> for &BigInt`: exact integer power.
#[verifier::external_body]
pub fn bigint_pow_usize(a: &BigInt, e: usize) -> (r: BigInt)
    ensures
        bi_val(r) == pow(bi_val(*a), e as nat),
{
    num::pow::Pow::pow(a, e)
}

/// Relies on `Ord for BigInt`: comparison agrees with the held integers.
#[verifier::external_body]
pub fn bigint_lt(a: &BigInt, b: &BigInt) -> (r: bool)
    ensures
        r == (bi_val(*a) < bi_val(*b)),
{
    a < b
}

/// Relies on `PartialEq for BigInt`: equality agrees with the held integers.
#[verifier::external_body]
pub fn bigint_eq(a: &BigInt, b: &BigInt) -> (r: bool)
    ensures
        r == (bi_val(*a) == bi_val(*b)),
{
    a == b
}

/// Relies on `Integer::is_even for BigInt`.
#[verifier::external_body]
pub fn bigint_is_even(a: &BigInt) -> (r: bool)
    ensures
        r == (bi_val(*a) % 2 == 0),
{
    num::Integer::is_even(a)
}

/// Relies on `i64: TryFrom<&BigInt>`: succeeds exactly on values that fit.
#[verifier::external_body]
pub fn bigint_to_i64(a: &BigInt) -> (r: Option<i64>)
    ensures
        r is Some <==> i64::MIN <= bi_val(*a) <= i64::MAX,
        r matches Some(v) ==> v as int == bi_val(*a),
{
    i64::try_from(a).ok()
}

// ---------------------------------------------------------------------------
// BigRational wrappers
// ---------------------------------------------------------------------------

/// Relies on `Ratio::new`: builds `n / d` in canonical reduced form; panics
/// when `d` is zero.
#[verifier::external_body]
pub fn rat_new(n: BigInt, d: BigInt) -> (r: BigRational)
    requires
        bi_val(d) != 0,
    ensures
        rat_wf(r),
        rat_numer(r) == norm_num(bi_val(n), bi_val(d)),
        rat_denom(r) == norm_den(bi_val(n), bi_val(d)),
{
    BigRational::new(n, d)
}

/// Relies on `Ratio::from_integer`: the fraction `n / 1`.
#[verifier::external_body]
pub fn rat_from_bigint(n: BigInt) -> (r: BigRational)
    ensures
        rat_wf(r),
        rat_numer(r) == bi_val(n),
        rat_denom(r) == 1,
{
    BigRational::from_integer(n)
}

/// Relies on `Clone for Ratio`.
#[verifier::external_body]
pub fn rat_clone(x: &BigRational) -> (r: BigRational)
    ensures
        rat_numer(r) == rat_numer(*x),
        rat_denom(r) == rat_denom(*x),
{
    x.clone()
}

/// Relies on `Add for Ratio`: exact rational addition, result reduced; the
/// sum of two positive rationals is positive.
#[verifier::external_body]
pub fn rat_add(a: &BigRational, b: &BigRational) -> (r: BigRational)
    requires
        rat_wf(*a),
        rat_wf(*b),
    ensures
        rat_wf(r),
        rat_numer(*a) > 0 && rat_numer(*b) > 0 ==> rat_numer(r) > 0,
        rat_numer(r) == norm_num(
            rat_numer(*a) * rat_denom(*b) + rat_numer(*b) * rat_denom(*a),
            rat_denom(*a) * rat_denom(*b),
        ),
        rat_denom(r) == norm_den(
            rat_numer(*a) * rat_denom(*b) + rat_numer(*b) * rat_denom(*a),
            rat_denom(*a) * rat_denom(*b),
        ),
{
    a + b
}

/// Relies on `Sub for Ratio`: exact rational subtraction, result reduced.
#[verifier::external_body]
pub fn rat_sub(a: &BigRational, b: &BigRational) -> (r: BigRational)
    requires
        rat_wf(*a),
        rat_wf(*b),
    ensures
        rat_wf(r),
        rat_numer(r) == norm_num(
            rat_numer(*a) * rat_denom(*b) - rat_numer(*b) * rat_denom(*a),
            rat_denom(*a) * rat_denom(*b),
        ),
        rat_denom(r) == norm_den(
            rat_numer(*a) * rat_denom(*b) - rat_numer(*b) * rat_denom(*a),
            rat_denom(*a) * rat_denom(*b),
        ),
{
    a - b
}

/// Relies on `Mul for Ratio`: exact rational multiplication, result reduced;
/// the product of two positive rationals is positive.
#[verifier::external_body]
pub fn rat_mul(a: &BigRational, b: &BigRational) -> (r: BigRational)
    requires
        rat_wf(*a),
        rat_wf(*b),
    ensures
        rat_wf(r),
        rat_numer(*a) > 0 && rat_numer(*b) > 0 ==> rat_numer(r) > 0,
        rat_numer(r) == norm_num(rat_numer(*a) * rat_numer(*b), rat_denom(*a) * rat_denom(*b)),
        rat_denom(r) == norm_den(rat_numer(*a) * rat_numer(*b), rat_denom(*a) * rat_denom(*b)),
{
    a * b
}

/// Relies on `Div for Ratio`: exact rational division, result reduced; the
/// divisor must not be zero; the quotient of two positive rationals is
/// positive.
#[verifier::external_body]
pub fn rat_div(a: &BigRational, b: &BigRational) -> (r: BigRational)
    requires
        rat_wf(*a),
        rat_wf(*b),
        rat_numer(*b) != 0,
    ensures
        rat_wf(r),
        rat_numer(*a) > 0 && rat_numer(*b) > 0 ==> rat_numer(r) > 0,
        rat_numer(r) == norm_num(rat_numer(*a) * rat_denom(*b), rat_denom(*a) * rat_numer(*b)),
        rat_denom(r) == norm_den(rat_numer(*a) * rat_denom(*b), rat_denom(*a) * rat_numer(*b)),
{
    a / b
}

/// The numerator of the exact rational remainder `a - trunc(a / b) * b`, over
/// the common denominator `rat_denom(a) * rat_denom(b)`.
pub open spec fn rem_common_num(a: BigRational, b: BigRational) -> int {
    let an = rat_numer(a) * rat_denom(b);
    let bn = rat_numer(b) * rat_denom(a);
    an - trunc_div(an, bn) * bn
}

/// Relies on `Rem for Ratio`: the exact rational remainder
/// `a - trunc(a / b) * b` (sign following `a`), result reduced; the divisor
/// must not be zero.
#[verifier::external_body]
pub fn rat_rem(a: &BigRational, b: &BigRational) -> (r: BigRational)
    requires
        rat_wf(*a),
        rat_wf(*b),
        rat_numer(*b) != 0,
    ensures
        rat_wf(r),
        rat_numer(r) == norm_num(rem_common_num(*a, *b), rat_denom(*a) * rat_denom(*b)),
        rat_denom(r) == norm_den(rem_common_num(*a, *b), rat_denom(*a) * rat_denom(*b)),
{
    a % b
}

/// Relies on `Neg for &Ratio`: negation keeps the reduced form.
#[verifier::external_body]
pub fn rat_neg(a: &BigRational) -> (r: BigRational)
    requires
        rat_wf(*a),
    ensures
        rat_wf(r),
        rat_numer(r) == -rat_numer(*a),
        rat_denom(r) == rat_denom(*a),
{
    -a
}

/// Relies on `Signed::abs for Ratio`.
#[verifier::external_body]
pub fn rat_abs(a: &BigRational) -> (r: BigRational)
    requires
        rat_wf(*a),
    ensures
        rat_wf(r),
        rat_numer(r) == iabs(rat_numer(*a)),
        rat_denom(r) == rat_denom(*a),
{
    num::Signed::abs(a)
}

/// Relies on `Ratio::round` (nearest integer, half away from zero) and
/// `Ratio::to_integer`.
#[verifier::external_body]
pub fn rat_round(a: &BigRational) -> (r: BigInt)
    requires
        rat_wf(*a),
    ensures
        bi_val(r) == round_half_away(rat_numer(*a), rat_denom(*a)),
{
    a.round().to_integer()
}

/// Relies on `Ratio::to_integer`: truncates toward zero.
#[verifier::external_body]
pub fn rat_to_integer(a: &BigRational) -> (r: BigInt)
    requires
        rat_wf(*a),
    ensures
        bi_val(r) == trunc_div(rat_numer(*a), rat_denom(*a)),
{
    a.to_integer()
}

/// Relies on `Ratio::numer` and `Clone for BigInt`.
#[verifier::external_body]
pub fn rat_numer_of(a: &BigRational) -> (r: BigInt)
    ensures
        bi_val(r) == rat_numer(*a),
{
    a.numer().clone()
}

/// Relies on `Ratio::denom` and `Clone for BigInt`.
#[verifier::external_body]
pub fn rat_denom_of(a: &BigRational) -> (r: BigInt)
    ensures
        bi_val(r) == rat_denom(*a),
{
    a.denom().clone()
}

/// Relies on `Ord for Ratio`: comparison agrees with the rational values
/// (cross-multiplied with positive denominators).
#[verifier::external_body]
pub fn rat_lt(a: &BigRational, b: &BigRational) -> (r: bool)
    requires
        rat_wf(*a),
        rat_wf(*b),
    ensures
        r == (rat_numer(*a) * rat_denom(*b) < rat_numer(*b) * rat_denom(*a)),
{
    a < b
}

/// Relies on `PartialEq for Ratio`: equality agrees with the rational values.
#[verifier::external_body]
pub fn rat_eq(a: &BigRational, b: &BigRational) -> (r: bool)
    requires
        rat_wf(*a),
        rat_wf(*b),
    ensures
        r == (rat_numer(*a) * rat_denom(*b) == rat_numer(*b) * rat_denom(*a)),
{
    a == b
}

/// Relies on `Pow<&BigInt> for &Ratio<BigInt>`: an exact rational power. A
/// nonnegative exponent raises numerator and denominator (coprimality is
/// kept); a negative exponent takes the reciprocal of the positive power,
/// which panics when the base is zero.
#[verifier::external_body]
pub fn rat_pow_bigint(a: &BigRational, e: &BigInt) -> (r: BigRational)
    requires
        rat_wf(*a),
        bi_val(*e) >= 0 || rat_numer(*a) != 0,
    ensures
        rat_wf(r),
        bi_val(*e) >= 0 ==> {
            &&& rat_numer(r) == pow(rat_numer(*a), bi_val(*e) as nat)
            &&& rat_denom(r) == pow(rat_denom(*a), bi_val(*e) as nat)
        },
        bi_val(*e) < 0 ==> {
            &&& rat_numer(r) == norm_num(
                pow(rat_denom(*a), iabs(bi_val(*e))),
                pow(rat_numer(*a), iabs(bi_val(*e))),
            )
            &&& rat_denom(r) == norm_den(
                pow(rat_denom(*a), iabs(bi_val(*e))),
                pow(rat_numer(*a), iabs(bi_val(*e))),
            )
        },
{
    num::pow::Pow::pow(a, e)
}

// ---------------------------------------------------------------------------
// Arithmetic over reduced pairs
// ---------------------------------------------------------------------------

/// The exact reduced sum of two reduced pairs.
pub open spec fn pair_add(a: (int, int), b: (int, int)) -> (int, int) {
    (
        norm_num(a.0 * b.1 + b.0 * a.1, a.1 * b.1),
        norm_den(a.0 * b.1 + b.0 * a.1, a.1 * b.1),
    )
}

/// The exact reduced difference of two reduced pairs.
pub open spec fn pair_sub(a: (int, int), b: (int, int)) -> (int, int) {
    (
        norm_num(a.0 * b.1 - b.0 * a.1, a.1 * b.1),
        norm_den(a.0 * b.1 - b.0 * a.1, a.1 * b.1),
    )
}

/// The exact reduced product of two reduced pairs.
pub open spec fn pair_mul(a: (int, int), b: (int, int)) -> (int, int) {
    (
        norm_num(a.0 * b.0, a.1 * b.1),
        norm_den(a.0 * b.0, a.1 * b.1),
    )
}

/// The exact reduced quotient of two reduced pairs (`b` nonzero).
pub open spec fn pair_div(a: (int, int), b: (int, int)) -> (int, int) {
    (
        norm_num(a.0 * b.1, a.1 * b.0),
        norm_den(a.0 * b.1, a.1 * b.0),
    )
}

/// The numerator of the exact remainder `a - trunc(a / b) * b` over the
/// common denominator `a.1 * b.1`.
pub open spec fn pair_rem_common_num(a: (int, int), b: (int, int)) -> int {
    let an = a.0 * b.1;
    let bn = b.0 * a.1;
    an - trunc_div(an, bn) * bn
}

/// The exact reduced remainder of two reduced pairs (`b` nonzero), its sign
/// following `a`.
pub open spec fn pair_rem(a: (int, int), b: (int, int)) -> (int, int) {
    (
        norm_num(pair_rem_common_num(a, b), a.1 * b.1),
        norm_den(pair_rem_common_num(a, b), a.1 * b.1),
    )
}

/// Whether the rational `a` is less than `b` (denominators positive).
pub open spec fn pair_lt(a: (int, int), b: (int, int)) -> bool {
    a.0 * b.1 < b.0 * a.1
}

/// Whether the rational `a` is at most `b` (denominators positive).
pub open spec fn pair_le(a: (int, int), b: (int, int)) -> bool {
    a.0 * b.1 <= b.0 * a.1
}

/// The absolute value of a pair (denominator positive).
pub open spec fn pair_abs(a: (int, int)) -> (int, int) {
    (iabs(a.0) as int, a.1)
}

/// A pair raised to a nonnegative power, component-wise; a reduced pair
/// stays reduced, so no normalization is needed.
pub open spec fn pair_pow(a: (int, int), e: nat) -> (int, int) {
    (pow(a.0, e), pow(a.1, e))
}

} // verus!
