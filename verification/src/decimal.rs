//! A non-negative fixed-point decimal with eighteen fractional digits.
//!
//! A value is stored as a count of atomic parts, each worth `10^-18` of a
//! whole unit, so the number represented by `d` is `d.atomics / SCALE`.
//! Multiplication and division round toward zero; subtraction is offered in
//! saturating and absolute-difference forms so that no operation here can
//! underflow.

use vstd::prelude::*;
use vstd::arithmetic::div_mod::*;
use vstd::arithmetic::mul::*;

verus! {

/// Number of atomic parts in one whole unit.
pub const SCALE: u128 = 1_000_000_000_000_000_000;

/// A non-negative fixed-point decimal: `atomics` counts multiples of `10^-18`.
#[derive(Clone, Copy, PartialEq, Eq, Structural, Debug)]
pub struct Decimal {
    pub atomics: u128,
}

/// Product of two decimals, over atomic counts: `(a * b) / SCALE`, rounded down.
pub open spec fn dec_mul(a: int, b: int) -> int {
    (a * b) / (SCALE as int)
}

/// Quotient of two decimals, over atomic counts: `(a * SCALE) / b`, rounded down.
pub open spec fn dec_div(a: int, b: int) -> int {
    (a * (SCALE as int)) / b
}

/// Subtraction clamped at zero.
pub open spec fn sat_sub(a: int, b: int) -> int {
    if a >= b {
        a - b
    } else {
        0
    }
}

/// Absolute difference.
pub open spec fn abs_diff(a: int, b: int) -> int {
    if a >= b {
        a - b
    } else {
        b - a
    }
}

impl Decimal {
    /// The decimal 0.
    pub fn zero() -> (r: Decimal)
        ensures
            r.atomics == 0,
    {
        Decimal { atomics: 0 }
    }

    /// The decimal 1.
    pub fn one() -> (r: Decimal)
        ensures
            r.atomics == SCALE,
    {
        Decimal { atomics: SCALE }
    }

    /// A decimal from a raw count of atomic parts.
    pub fn from_atomics(atomics: u128) -> (r: Decimal)
        ensures
            r.atomics == atomics,
    {
        Decimal { atomics }
    }

    /// The decimal equal to the whole number `n`.
    pub fn from_int(n: u64) -> (r: Decimal)
        ensures
            r.atomics == n * SCALE,
    {
        proof {
            lemma_mul_inequality(n as int, u64::MAX as int, SCALE as int);
        }
        Decimal { atomics: (n as u128) * SCALE }
    }

    /// The decimal `numer / denom`, rounded down to the nearest atomic part.
    pub fn from_ratio(numer: u64, denom: u64) -> (r: Decimal)
        requires
            denom > 0,
        ensures
            r.atomics == (numer * SCALE) / (denom as int),
    {
        proof {
            lemma_mul_inequality(numer as int, u64::MAX as int, SCALE as int);
            lemma_div_is_ordered(
                (numer as int) * (SCALE as int),
                (u64::MAX as int) * (SCALE as int),
                denom as int,
            );
            lemma_div_nonincreasing((u64::MAX as int) * (SCALE as int), denom as int);
        }
        Decimal { atomics: ((numer as u128) * SCALE) / (denom as u128) }
    }

    /// Whether this decimal is 0.
    pub fn is_zero(&self) -> (r: bool)
        ensures
            r == (self.atomics == 0),
    {
        self.atomics == 0
    }

    /// Strict order on decimals.
    pub fn lt(self, other: Decimal) -> (r: bool)
        ensures
            r == (self.atomics < other.atomics),
    {
        self.atomics < other.atomics
    }
}

/// The product of two atomic counts, split about `SCALE` so that a machine
/// word can hold every intermediate value whenever the product itself fits:
/// with `a == SCALE*q + r` and `b == SCALE*qb + rb`, the rounded product
/// `(a*b)/SCALE` equals `q*b + r*qb + (r*rb)/SCALE`, and each summand is
/// bounded by the whole.
proof fn lemma_dec_mul_split(a: int, b: int)
    requires
        0 <= a,
        0 <= b,
    ensures
        dec_mul(a, b) == (a / (SCALE as int)) * b + (a % (SCALE as int)) * (b / (SCALE as int)) + (
        (a % (SCALE as int)) * (b % (SCALE as int))) / (SCALE as int),
        (a / (SCALE as int)) * b <= dec_mul(a, b),
        (a % (SCALE as int)) * (b / (SCALE as int)) <= b,
        (a % (SCALE as int)) * (b % (SCALE as int)) <= ((SCALE - 1) as int) * ((SCALE - 1) as int),
        0 <= (a / (SCALE as int)) * b,
        0 <= (a % (SCALE as int)) * (b / (SCALE as int)),
        0 <= ((a % (SCALE as int)) * (b % (SCALE as int))) / (SCALE as int),
{
    let s = SCALE as int;
    let q = a / s;
    let r = a % s;
    let qb = b / s;
    let rb = b % s;
    lemma_fundamental_div_mod(a, s);
    lemma_fundamental_div_mod(b, s);
    lemma_div_pos_is_pos(a, s);
    lemma_div_pos_is_pos(b, s);
    lemma_mod_division_less_than_divisor(a, s);
    lemma_mod_division_less_than_divisor(b, s);
    assert(a * b == s * (q * b + r * qb) + r * rb) by (nonlinear_arith)
        requires
            a == s * q + r,
            b == s * qb + rb,
    ;
    assert((r * rb + (q * b + r * qb) * s) / s == (r * rb) / s + (q * b + r * qb)) by {
        lemma_hoist_over_denominator(r * rb, q * b + r * qb, SCALE as nat);
    }
    assert(r * rb + (q * b + r * qb) * s == a * b) by (nonlinear_arith)
        requires
            a * b == s * (q * b + r * qb) + r * rb,
    ;
    // each summand is non-negative
    lemma_mul_nonnegative(q, b);
    lemma_mul_nonnegative(r, qb);
    lemma_mul_nonnegative(r, rb);
    lemma_div_pos_is_pos(r * rb, s);
    // q * b <= (a * b) / s
    assert((q * s) * b <= a * b) by (nonlinear_arith)
        requires
            q * s <= a,
            0 <= b,
    ;
    lemma_div_is_ordered((q * s) * b, a * b, s);
    assert((q * s) * b == s * (q * b)) by (nonlinear_arith);
    lemma_div_multiples_vanish(q * b, s);
    // r * qb <= b
    lemma_mul_inequality(r, s, qb);
    assert(s * qb <= b);
    assert(r * qb <= s * qb) by (nonlinear_arith)
        requires
            r * qb <= s * qb,
    ;
    // r * rb <= (s - 1) * (s - 1)
    lemma_mul_upper_bound(r, s - 1, rb, s - 1);
}

/// Product of two decimals, rounded down to the nearest atomic part.
pub fn mul_dec(a: Decimal, b: Decimal) -> (r: Decimal)
    requires
        dec_mul(a.atomics as int, b.atomics as int) <= u128::MAX,
    ensures
        r.atomics == dec_mul(a.atomics as int, b.atomics as int),
{
    proof {
        lemma_dec_mul_split(a.atomics as int, b.atomics as int);
    }
    let q: u128 = a.atomics / SCALE;
    let r0: u128 = a.atomics % SCALE;
    let qb: u128 = b.atomics / SCALE;
    let rb: u128 = b.atomics % SCALE;
    let whole: u128 = q * b.atomics;
    let cross: u128 = r0 * qb;
    let frac: u128 = (r0 * rb) / SCALE;
    Decimal { atomics: whole + cross + frac }
}

/// A factor of at most `k` whole units scales a decimal by at most `k`:
/// if `b <= k * SCALE` then `dec_mul(a, b) <= k * a`.
pub proof fn lemma_dec_mul_upper(a: int, b: int, k: int)
    requires
        0 <= a,
        0 <= b <= k * (SCALE as int),
    ensures
        0 <= dec_mul(a, b) <= k * a,
{
    let s = SCALE as int;
    lemma_mul_nonnegative(a, b);
    lemma_div_pos_is_pos(a * b, s);
    assert(a * b <= (k * a) * s) by (nonlinear_arith)
        requires
            0 <= a,
            b <= k * s,
    ;
    lemma_div_is_ordered(a * b, (k * a) * s, s);
    assert((k * a) * s == s * (k * a)) by (nonlinear_arith);
    lemma_div_multiples_vanish(k * a, s);
}

/// The decimal product of non-negative values is non-negative.
pub proof fn lemma_dec_mul_nonneg(a: int, b: int)
    requires
        0 <= a,
        0 <= b,
    ensures
        0 <= dec_mul(a, b),
{
    lemma_mul_nonnegative(a, b);
    lemma_div_pos_is_pos(a * b, SCALE as int);
}

/// A whole-number factor scales a decimal exactly:
/// `dec_mul(a, n * SCALE) == n * a`.
pub proof fn lemma_dec_mul_exact(a: int, n: int)
    requires
        0 <= a,
        0 <= n,
    ensures
        dec_mul(a, n * (SCALE as int)) == n * a,
{
    let s = SCALE as int;
    assert(a * (n * s) == s * (n * a)) by (nonlinear_arith);
    lemma_div_multiples_vanish(n * a, s);
}

/// The decimal product grows with its left factor.
pub proof fn lemma_dec_mul_mono(a1: int, a2: int, f: int)
    requires
        0 <= a1 <= a2,
        0 <= f,
    ensures
        dec_mul(a1, f) <= dec_mul(a2, f),
{
    lemma_mul_inequality(a1, a2, f);
    lemma_div_is_ordered(a1 * f, a2 * f, SCALE as int);
}

/// Dividing by a decimal of at least one whole unit does not enlarge:
/// if `b >= SCALE` then `dec_div(a, b) <= a`.
pub proof fn lemma_dec_div_le(a: int, b: int)
    requires
        0 <= a,
        SCALE <= b,
    ensures
        0 <= dec_div(a, b) <= a,
{
    let s = SCALE as int;
    lemma_mul_nonnegative(a, s);
    lemma_div_pos_is_pos(a * s, b);
    lemma_mul_left_inequality_or_zero(a, s, b);
    lemma_div_is_ordered(a * s, a * b, b);
    assert(a * b == b * a) by (nonlinear_arith);
    lemma_div_multiples_vanish(a, b);
}

/// Helper: `0 <= a && y <= z` gives `a * y <= a * z` (also for `a == 0`).
proof fn lemma_mul_left_inequality_or_zero(a: int, y: int, z: int)
    requires
        0 <= a,
        y <= z,
    ensures
        a * y <= a * z,
{
    if a > 0 {
        lemma_mul_left_inequality(a, y, z);
    } else {
        assert(a * y == 0 && a * z == 0) by (nonlinear_arith)
            requires
                a == 0,
        ;
    }
}

/// The quotient of a smaller by a larger decimal is below one whole unit.
pub proof fn lemma_dec_div_lt_one(a: int, b: int)
    requires
        0 <= a < b,
    ensures
        0 <= dec_div(a, b) < SCALE,
{
    let s = SCALE as int;
    lemma_mul_nonnegative(a, s);
    lemma_div_pos_is_pos(a * s, b);
    assert(a * s < b * s) by (nonlinear_arith)
        requires
            0 <= a < b,
            0 < s,
    ;
    lemma_multiply_divide_lt(a * s, b, s);
}

/// The decimal quotient grows with its numerator.
pub proof fn lemma_dec_div_mono(a1: int, a2: int, b: int)
    requires
        0 <= a1 <= a2,
        0 < b,
    ensures
        dec_div(a1, b) <= dec_div(a2, b),
{
    lemma_mul_inequality(a1, a2, SCALE as int);
    lemma_div_is_ordered(a1 * (SCALE as int), a2 * (SCALE as int), b);
}

/// Dividing by the decimal one returns the value unchanged.
pub proof fn lemma_dec_div_one(a: int)
    requires
        0 <= a,
    ensures
        dec_div(a, SCALE as int) == a,
{
    let s = SCALE as int;
    assert(a * s == s * a) by (nonlinear_arith);
    lemma_div_multiples_vanish(a, s);
}

/// Dividing by the decimal two halves the atomic count:
/// `dec_div(a, 2 * SCALE) == a / 2`.
pub proof fn lemma_dec_div_two(a: int)
    requires
        0 <= a,
    ensures
        dec_div(a, 2 * (SCALE as int)) == a / 2,
{
    let s = SCALE as int;
    lemma_div_denominator(a * s, s, 2);
    assert((a * s) / s == a) by {
        assert(a * s == s * a) by (nonlinear_arith);
        lemma_div_multiples_vanish(a, s);
    }
    assert(s * 2 == 2 * s);
}

/// `10^e`.
pub open spec fn pow10(e: nat) -> int
    decreases e,
{
    if e == 0 {
        1
    } else {
        10 * pow10((e - 1) as nat)
    }
}

/// Powers of ten grow with the exponent.
proof fn lemma_pow10_increases(e1: nat, e2: nat)
    requires
        e1 <= e2,
    ensures
        pow10(e1) <= pow10(e2),
        1 <= pow10(e1),
    decreases e2,
{
    if e2 > 0 {
        if e1 == e2 {
            lemma_pow10_increases((e1 - 1) as nat, (e2 - 1) as nat);
        } else {
            lemma_pow10_increases(e1, (e2 - 1) as nat);
        }
    }
}

/// Quotient of two decimals, rounded down to the nearest atomic part.
///
/// Computed by base-ten long division: eighteen digit steps turn the running
/// quotient of `num / denom` into the quotient of `num * SCALE / denom`
/// without ever forming the oversized product `num * SCALE`.
pub fn div_dec(num: Decimal, denom: Decimal) -> (r: Decimal)
    requires
        denom.atomics > 0,
        denom.atomics <= u128::MAX / 10,
        dec_div(num.atomics as int, denom.atomics as int) <= u128::MAX,
    ensures
        r.atomics == dec_div(num.atomics as int, denom.atomics as int),
{
    let b: u128 = denom.atomics;
    let mut q: u128 = num.atomics / b;
    let mut rem: u128 = num.atomics % b;
    let mut i: usize = 0;
    proof {
        lemma_fundamental_div_mod(num.atomics as int, b as int);
        lemma_mod_division_less_than_divisor(num.atomics as int, b as int);
        assert(pow10(18) == SCALE) by {
            reveal_with_fuel(pow10, 19);
        }
        assert(pow10(0) == 1);
        assert(num.atomics * pow10(0) == num.atomics);
    }
    while i < 18
        invariant
            0 < b <= u128::MAX / 10,
            i <= 18,
            rem < b,
            q * b + rem == num.atomics * pow10(i as nat),
            dec_div(num.atomics as int, b as int) <= u128::MAX,
            pow10(18) == SCALE,
        decreases 18 - i,
    {
        let rem10: u128 = rem * 10;
        let ghost n_next: int = num.atomics * pow10((i + 1) as nat);
        proof {
            let s = SCALE as int;
            let n = num.atomics as int;
            lemma_fundamental_div_mod(rem10 as int, b as int);
            lemma_mod_division_less_than_divisor(rem10 as int, b as int);
            lemma_div_pos_is_pos(rem10 as int, b as int);
            assert(n_next == 10 * (n * pow10(i as nat))) by (nonlinear_arith)
                requires
                    n_next == n * pow10((i + 1) as nat),
                    pow10((i + 1) as nat) == 10 * pow10(i as nat),
            ;
            assert((10 * q + rem10 / b) * b + rem10 % b == n_next) by (nonlinear_arith)
                requires
                    q * b + rem == n * pow10(i as nat),
                    rem10 == 10 * rem,
                    rem10 == b * (rem10 / b) + rem10 % b,
                    n_next == 10 * (n * pow10(i as nat)),
            ;
            lemma_fundamental_div_mod_converse_div(
                n_next,
                b as int,
                10 * q + rem10 / b,
                (rem10 % b) as int,
            );
            lemma_pow10_increases((i + 1) as nat, 18);
            if n > 0 {
                lemma_mul_left_inequality(n, pow10((i + 1) as nat), pow10(18));
                lemma_div_is_ordered(n_next, n * s, b as int);
            } else {
                assert(n == 0);
                assert(n_next == 0) by (nonlinear_arith)
                    requires
                        n == 0,
                        n_next == n * pow10((i + 1) as nat),
                ;
            }
            assert(10 * q + rem10 / b <= u128::MAX);
        }
        q = q * 10 + rem10 / b;
        rem = rem10 % b;
        i = i + 1;
    }
    proof {
        lemma_fundamental_div_mod_converse_div(
            (num.atomics as int) * (SCALE as int),
            b as int,
            q as int,
            rem as int,
        );
    }
    Decimal { atomics: q }
}

/// Sum of two decimals.
pub fn add_dec(a: Decimal, b: Decimal) -> (r: Decimal)
    requires
        a.atomics + b.atomics <= u128::MAX,
    ensures
        r.atomics == a.atomics + b.atomics,
{
    Decimal { atomics: a.atomics + b.atomics }
}

/// Difference of two decimals, clamped at zero so it can never underflow.
pub fn sub_no_overflow(a: Decimal, b: Decimal) -> (r: Decimal)
    ensures
        r.atomics == sat_sub(a.atomics as int, b.atomics as int),
{
    if a.atomics >= b.atomics {
        Decimal { atomics: a.atomics - b.atomics }
    } else {
        Decimal { atomics: 0 }
    }
}

/// Absolute difference of two decimals.
pub fn sub_abs(a: Decimal, b: Decimal) -> (r: Decimal)
    ensures
        r.atomics == abs_diff(a.atomics as int, b.atomics as int),
{
    if a.atomics >= b.atomics {
        Decimal { atomics: a.atomics - b.atomics }
    } else {
        Decimal { atomics: b.atomics - a.atomics }
    }
}

} // verus!
