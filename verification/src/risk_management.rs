//! Risk management for the quoting engine: capital allocation under open
//! position margin, minimum-spread enforcement, and a numerically safe
//! variance for volatility estimates.

use vstd::prelude::*;
use vstd::arithmetic::div_mod::*;
use vstd::arithmetic::mul::*;
use crate::decimal::{
    add_dec, dec_div, dec_mul, div_dec, lemma_dec_div_le, lemma_dec_div_lt_one,
    lemma_dec_div_mono, lemma_dec_div_one, lemma_dec_div_two, lemma_dec_mul_exact,
    lemma_dec_mul_mono, lemma_dec_mul_nonneg, lemma_dec_mul_upper, mul_dec, sat_sub, sub_abs,
    sub_no_overflow, Decimal, SCALE,
};
use crate::msg::WrappedPosition;
use crate::state::State;

verus! {

/// The error that the invariant guard reports: the inventory snapshot does
/// not fit the configured trading mode. The embedding caller must treat it
/// as fatal for the quoting cycle, never paper over it.
#[derive(Clone, Copy, PartialEq, Eq, Structural, Debug)]
pub struct InconsistentStateError;

/// The two allowed inventory modes. In derivative mode the base-asset
/// balance must be zero; in spot mode no derivative position may be open.
/// The caller's flag must agree with the configured one.
pub open spec fn spec_consistent(
    is_deriv: bool,
    position_present: bool,
    inv_base_bal: int,
    state_is_deriv: bool,
) -> bool {
    &&& is_deriv == state_is_deriv
    &&& (is_deriv ==> inv_base_bal == 0)
    &&& (!is_deriv ==> !position_present)
}

/// Invariant guard: validates that the position and inventory snapshot is
/// internally consistent before any allocation decision is made. Returns an
/// error exactly when the snapshot violates the mode invariant.
pub fn sanity_check(
    is_deriv: bool,
    position: &Option<WrappedPosition>,
    inv_base_bal: Decimal,
    state: &State,
) -> (r: Result<(), InconsistentStateError>)
    ensures
        r is Ok <==> spec_consistent(
            is_deriv,
            position is Some,
            inv_base_bal.atomics as int,
            state.is_deriv,
        ),
{
    let flag_matches = is_deriv == state.is_deriv;
    let bal_consistent = !is_deriv || inv_base_bal.is_zero();
    let pos_consistent = is_deriv || position.is_none();
    if flag_matches && bal_consistent && pos_consistent {
        Ok(())
    } else {
        Err(InconsistentStateError)
    }
}

/// The notional balance assignable to one side of the book: half the active
/// capital when no margin is locked, otherwise half the active capital
/// recomputed from the inventory shrunken by the unlevered half-allocation
/// and by the locked margin (both subtractions clamped at zero).
pub open spec fn spec_alloc_bal(inv_val: int, margin: int, active_capital_perct: int) -> int {
    let half = dec_div(dec_mul(inv_val, active_capital_perct), 2 * (SCALE as int));
    if margin == 0 {
        half
    } else {
        let reduced = sat_sub(sat_sub(inv_val, half), margin);
        dec_div(dec_mul(reduced, active_capital_perct), 2 * (SCALE as int))
    }
}

/// Determines the notional balance that we are willing to assign to either
/// the buy or the sell side. Takes into consideration the current margin to
/// limit the new open orders on the side that already has a position open.
///
/// `inv_val` is the total notional value of the inventory; `margin` is the
/// margin value of an open position (zero if the position is on the opposite
/// side or if there is none); `active_capital_perct` is the fraction of the
/// inventory value that should be on the book across both sides combined.
pub fn get_alloc_bal_new_orders(
    inv_val: Decimal,
    margin: Decimal,
    active_capital_perct: Decimal,
) -> (alloc_bal: Decimal)
    requires
        active_capital_perct.atomics <= SCALE,
    ensures
        alloc_bal.atomics == spec_alloc_bal(
            inv_val.atomics as int,
            margin.atomics as int,
            active_capital_perct.atomics as int,
        ),
{
    proof {
        lemma_dec_mul_upper(inv_val.atomics as int, active_capital_perct.atomics as int, 1);
    }
    let two = Decimal::from_int(2);
    let alloc_for_both_sides = mul_dec(inv_val, active_capital_perct);
    proof {
        lemma_dec_div_le(alloc_for_both_sides.atomics as int, two.atomics as int);
    }
    let alloc_one_side = div_dec(alloc_for_both_sides, two);
    if margin.is_zero() {
        alloc_one_side
    } else {
        let shrunk_inv_val = sub_no_overflow(inv_val, alloc_one_side);
        let residual_inv_val = sub_no_overflow(shrunk_inv_val, margin);
        proof {
            lemma_dec_mul_upper(
                residual_inv_val.atomics as int,
                active_capital_perct.atomics as int,
                1,
            );
        }
        let alloc_for_both_sides = mul_dec(residual_inv_val, active_capital_perct);
        proof {
            lemma_dec_div_le(alloc_for_both_sides.atomics as int, two.atomics as int);
        }
        div_dec(alloc_for_both_sides, two)
    }
}

/// The buy-side tail after spread enforcement: when the proposed tail sits
/// below the head but its relative distance from the head falls short of
/// `min_dist`, the tail is forced to exactly `min_dist` below the head;
/// otherwise (including a degenerate tail at or above the head) the proposal
/// passes through unchanged.
pub open spec fn spec_buy_tail(buy_head: int, proposed_buy_tail: int, min_dist: int) -> int {
    if proposed_buy_tail < buy_head {
        if dec_div(buy_head - proposed_buy_tail, buy_head) < min_dist {
            dec_mul(buy_head, (SCALE as int) - min_dist)
        } else {
            proposed_buy_tail
        }
    } else {
        proposed_buy_tail
    }
}

/// The sell-side tail after spread enforcement, symmetric to the buy side:
/// a tail above the head that is relatively too close is forced to exactly
/// `min_dist` above the head.
pub open spec fn spec_sell_tail(sell_head: int, proposed_sell_tail: int, min_dist: int) -> int {
    if sell_head < proposed_sell_tail {
        if dec_div(proposed_sell_tail - sell_head, sell_head) < min_dist {
            dec_mul(sell_head, (SCALE as int) + min_dist)
        } else {
            proposed_sell_tail
        }
    } else {
        proposed_sell_tail
    }
}

/// Ensures that the current tails keep enough distance from their heads, so
/// that the order spread cannot become too dense. A tail whose relative
/// distance from its head falls below the minimum is replaced by one at
/// exactly the minimum distance; the guard only pushes tails outward, it
/// never pulls one in, and an inverted head/tail pair passes through.
pub fn check_tail_dist(
    buy_head: Decimal,
    sell_head: Decimal,
    proposed_buy_tail: Decimal,
    proposed_sell_tail: Decimal,
    min_tail_dist_perct: Decimal,
) -> (tails: (Decimal, Decimal))
    requires
        0 < buy_head.atomics <= u128::MAX / 10,
        0 < sell_head.atomics <= u128::MAX / 10,
        0 < proposed_buy_tail.atomics,
        0 < proposed_sell_tail.atomics,
        min_tail_dist_perct.atomics <= SCALE,
        sell_head.atomics < proposed_sell_tail.atomics ==> dec_div(
            proposed_sell_tail.atomics - sell_head.atomics,
            sell_head.atomics as int,
        ) <= u128::MAX,
    ensures
        tails.0.atomics == spec_buy_tail(
            buy_head.atomics as int,
            proposed_buy_tail.atomics as int,
            min_tail_dist_perct.atomics as int,
        ),
        tails.1.atomics == spec_sell_tail(
            sell_head.atomics as int,
            proposed_sell_tail.atomics as int,
            min_tail_dist_perct.atomics as int,
        ),
{
    let one = Decimal::one();
    let buy_tail = if proposed_buy_tail.lt(buy_head) {
        let diff = sub_abs(buy_head, proposed_buy_tail);
        proof {
            lemma_dec_div_lt_one(diff.atomics as int, buy_head.atomics as int);
        }
        let proposed_buy_tail_dist_perct = div_dec(diff, buy_head);
        if proposed_buy_tail_dist_perct.lt(min_tail_dist_perct) {
            proof {
                lemma_dec_mul_upper(
                    buy_head.atomics as int,
                    (SCALE as int) - min_tail_dist_perct.atomics,
                    1,
                );
            }
            mul_dec(buy_head, sub_abs(one, min_tail_dist_perct))
        } else {
            proposed_buy_tail
        }
    } else {
        proposed_buy_tail
    };
    let sell_tail = if sell_head.lt(proposed_sell_tail) {
        let diff = sub_abs(sell_head, proposed_sell_tail);
        let proposed_sell_tail_dist_perct = div_dec(diff, sell_head);
        if proposed_sell_tail_dist_perct.lt(min_tail_dist_perct) {
            proof {
                lemma_dec_mul_upper(
                    sell_head.atomics as int,
                    (SCALE as int) + min_tail_dist_perct.atomics,
                    2,
                );
            }
            mul_dec(sell_head, add_dec(one, min_tail_dist_perct))
        } else {
            proposed_sell_tail
        }
    } else {
        proposed_sell_tail
    };
    (buy_tail, sell_tail)
}

/// One rescaling step applies while squaring would shrink the value, which
/// can happen only strictly below one whole unit; both the value and the
/// scale accumulator are then multiplied by ten. Once the loop exits, the
/// square is divided by the accumulated shift.
pub open spec fn spec_safe_variance_loop(std_dev: int, shift: int) -> int
    decreases (if std_dev < SCALE as int {
        (SCALE as int) - std_dev
    } else {
        0int
    }),
{
    if 0 < std_dev < SCALE as int && dec_mul(std_dev, std_dev) < std_dev {
        spec_safe_variance_loop(10 * std_dev, 10 * shift)
    } else {
        dec_div(dec_mul(std_dev, std_dev), shift)
    }
}

/// The numerically safe variance of a standard deviation.
pub open spec fn spec_safe_variance(std_dev: int) -> int {
    spec_safe_variance_loop(std_dev, SCALE as int)
}

/// A value of at least one whole unit does not shrink when squared.
pub proof fn lemma_square_no_shrink(d: int)
    requires
        SCALE <= d,
    ensures
        d <= dec_mul(d, d),
{
    let s = SCALE as int;
    assert(d * s <= d * d) by (nonlinear_arith)
        requires
            0 < s <= d,
    ;
    lemma_div_is_ordered(d * s, d * d, s);
    assert(d * s == s * d) by (nonlinear_arith);
    lemma_div_multiples_vanish(d, s);
}

/// Ensures that the variance is never smaller than the standard deviation
/// it is derived from: a standard deviation below one whole unit is first
/// rescaled by a power of ten so that squaring cannot shrink it past the
/// fixed-point precision, and the squared result is scaled back down.
pub fn safe_variance(std_dev: Decimal) -> (variance: Decimal)
    requires
        dec_mul(std_dev.atomics as int, std_dev.atomics as int) <= u128::MAX,
    ensures
        variance.atomics == spec_safe_variance(std_dev.atomics as int),
{
    let mut sd = std_dev;
    let mut shift = Decimal::one();
    let multiplier = Decimal::from_int(10);
    while mul_dec(sd, sd).lt(sd)
        invariant
            multiplier.atomics == 10 * (SCALE as int),
            dec_mul(sd.atomics as int, sd.atomics as int) <= u128::MAX,
            SCALE <= shift.atomics,
            shift.atomics == SCALE || (sd.atomics <= 10 * ((SCALE as int) - 1)
                && shift.atomics <= (SCALE as int) * (sd.atomics as int)),
            spec_safe_variance_loop(sd.atomics as int, shift.atomics as int)
                == spec_safe_variance(std_dev.atomics as int),
        decreases (if sd.atomics < SCALE {
            (SCALE as int) - sd.atomics
        } else {
            0int
        }),
    {
        proof {
            let s = SCALE as int;
            let d = sd.atomics as int;
            let sh = shift.atomics as int;
            lemma_dec_mul_nonneg(d, d);
            // squaring shrank the value, so it lies strictly below one unit
            if d >= s {
                lemma_square_no_shrink(d);
            }
            assert(0 < d < s);
            lemma_dec_mul_exact(d, 10);
            lemma_dec_mul_exact(sh, 10);
            // the tenfold value still has a small enough square
            assert((10 * d) * (10 * d) <= (10 * (s - 1)) * (10 * (s - 1))) by (nonlinear_arith)
                requires
                    0 < d <= s - 1,
            ;
            lemma_div_is_ordered((10 * d) * (10 * d), (10 * (s - 1)) * (10 * (s - 1)), s);
            lemma_div_nonincreasing((10 * (s - 1)) * (10 * (s - 1)), s);
            assert((10 * (s - 1)) * (10 * (s - 1)) <= u128::MAX) by (nonlinear_arith)
                requires
                    s == SCALE as int,
            ;
            // the shift keeps pace with the value
            if sh == s {
                assert(10 * sh <= s * (10 * d)) by (nonlinear_arith)
                    requires
                        1 <= d,
                        sh == s,
                        0 < s,
                ;
            } else {
                assert(10 * sh <= s * (10 * d)) by (nonlinear_arith)
                    requires
                        sh <= s * d,
                ;
            }
            assert(10 * sh <= 10 * (s * (s - 1))) by (nonlinear_arith)
                requires
                    sh == s || sh <= s * d,
                    sh >= s,
                    0 < d <= s - 1,
                    0 < s,
            ;
        }
        sd = mul_dec(sd, multiplier);
        shift = mul_dec(shift, multiplier);
    }
    proof {
        let s = SCALE as int;
        let d = sd.atomics as int;
        let sh = shift.atomics as int;
        lemma_dec_mul_nonneg(d, d);
        if sh != s {
            assert(sh <= s * (10 * (s - 1))) by (nonlinear_arith)
                requires
                    sh <= s * d,
                    d <= 10 * (s - 1),
                    0 < s,
            ;
        }
        lemma_dec_div_le(dec_mul(d, d), sh);
    }
    div_dec(mul_dec(sd, sd), shift)
}

/// The allocation is a function of its arguments alone: two calls with the
/// same inventory value, margin and active-capital fraction return the same
/// balance.
pub proof fn lemma_alloc_bal_deterministic(r1: int, r2: int, inv_val: int, margin: int, f: int)
    requires
        r1 == spec_alloc_bal(inv_val, margin, f),
        r2 == spec_alloc_bal(inv_val, margin, f),
    ensures
        r1 == r2,
{
}

/// With no margin locked, the allocation is exactly half the active capital:
/// `spec_alloc_bal(v, 0, f)` equals the atomic count of `v * f` halved.
pub proof fn lemma_alloc_bal_zero_margin(inv_val: int, f: int)
    requires
        0 <= inv_val,
        0 <= f,
    ensures
        spec_alloc_bal(inv_val, 0, f) == dec_mul(inv_val, f) / 2,
{
    lemma_dec_mul_nonneg(inv_val, f);
    lemma_dec_div_two(dec_mul(inv_val, f));
}

/// Margin never enlarges the allocation: for any margin the balance assigned
/// to a side is at most the zero-margin balance.
pub proof fn lemma_alloc_bal_margin_monotone(inv_val: int, margin: int, f: int)
    requires
        0 <= inv_val,
        0 <= margin,
        0 <= f,
    ensures
        spec_alloc_bal(inv_val, margin, f) <= spec_alloc_bal(inv_val, 0, f),
{
    if margin != 0 {
        let half = dec_div(dec_mul(inv_val, f), 2 * (SCALE as int));
        let reduced = sat_sub(sat_sub(inv_val, half), margin);
        lemma_dec_mul_nonneg(inv_val, f);
        lemma_dec_mul_mono(reduced, inv_val, f);
        lemma_dec_div_mono(dec_mul(reduced, f), dec_mul(inv_val, f), 2 * (SCALE as int));
    }
}

/// A quotient below `m` bounds the dividend below `m` times the divisor.
proof fn lemma_div_lt_implies(a: int, b: int, m: int)
    requires
        0 <= a,
        0 < b,
        a / b < m,
    ensures
        a < m * b,
{
    lemma_fundamental_div_mod(a, b);
    lemma_mod_division_less_than_divisor(a, b);
    assert(a < m * b) by (nonlinear_arith)
        requires
            a == b * (a / b) + a % b,
            a / b <= m - 1,
            0 <= a % b < b,
    ;
}

/// A quotient of at least `m` bounds the dividend at `m` times the divisor.
proof fn lemma_div_ge_implies(a: int, b: int, m: int)
    requires
        0 <= a,
        0 < b,
        m <= a / b,
    ensures
        m * b <= a,
{
    lemma_fundamental_div_mod(a, b);
    lemma_mod_division_less_than_divisor(a, b);
    assert(m * b <= a) by (nonlinear_arith)
        requires
            a == b * (a / b) + a % b,
            m <= a / b,
            0 <= a % b,
            0 < b,
    ;
}

/// Nonzero margin strictly reduces the allocation, as soon as the amounts
/// are above the fixed-point dust threshold: whenever the zero-margin
/// allocation is nonzero and margin times fraction comes to at least three
/// atomic parts, the allocation with that margin is strictly smaller.
pub proof fn lemma_alloc_bal_margin_strict(inv_val: int, margin: int, f: int)
    requires
        0 <= inv_val,
        0 <= margin,
        0 <= f <= SCALE,
        3 <= dec_mul(margin, f),
        1 <= spec_alloc_bal(inv_val, 0, f),
    ensures
        spec_alloc_bal(inv_val, margin, f) < spec_alloc_bal(inv_val, 0, f),
{
    let s = SCALE as int;
    let p = dec_mul(inv_val, f);
    lemma_dec_mul_nonneg(inv_val, f);
    lemma_dec_div_two(p);
    let half = dec_div(p, 2 * s);
    assert(half == p / 2);
    // margin is nonzero, so the shrunken branch applies
    if margin == 0 {
        assert(margin * f == 0) by (nonlinear_arith)
            requires
                margin == 0,
        ;
        lemma_div_of0(s);
        assert(false);
    }
    // the half-allocation never exceeds the inventory value
    lemma_div_nonincreasing(p, 2);
    lemma_dec_mul_upper(inv_val, f, 1);
    assert(sat_sub(inv_val, half) == inv_val - half);
    let avail = inv_val - half;
    let reduced = sat_sub(avail, margin);
    // margin times fraction spans at least three whole atomic steps
    lemma_div_ge_implies(margin * f, s, 3);
    if avail < margin {
        // nothing is left to allocate
        assert(reduced == 0);
        assert(reduced * f == 0) by (nonlinear_arith)
            requires
                reduced == 0,
        ;
        lemma_div_of0(s);
        assert(dec_mul(reduced, f) == 0);
        lemma_dec_div_two(0);
        lemma_div_of0(2);
        assert(spec_alloc_bal(inv_val, margin, f) == 0);
    } else {
        assert(reduced == avail - margin);
        // reduced * f loses at least margin * f >= 3 * SCALE against inv_val * f
        assert(reduced * f <= inv_val * f - 3 * s) by (nonlinear_arith)
            requires
                reduced == inv_val - half - margin,
                0 <= half,
                0 <= f,
                3 * s <= margin * f,
        ;
        assert((inv_val * f - 3 * s) / s == p - 3) by {
            lemma_hoist_over_denominator(inv_val * f, -3, SCALE as nat);
        }
        lemma_mul_nonnegative(reduced, f);
        lemma_div_is_ordered(reduced * f, inv_val * f - 3 * s, s);
        assert(dec_mul(reduced, f) <= p - 3);
        lemma_dec_div_two(dec_mul(reduced, f));
        lemma_div_is_ordered(dec_mul(reduced, f), p - 3, 2);
        assert((p - 3) / 2 + 1 == (p - 1) / 2) by {
            lemma_hoist_over_denominator(p - 3, 1, 2);
        }
        lemma_div_is_ordered(p - 1, p, 2);
        assert(spec_alloc_bal(inv_val, margin, f) <= (p - 3) / 2);
        assert((p - 3) / 2 < p / 2);
    }
}

/// The spread guard passes a tail through unchanged whenever the proposed
/// tail already satisfies the minimum relative distance from its head, and
/// also whenever the head and tail arrive inverted.
pub proof fn lemma_tail_dist_pass_through(
    buy_head: int,
    sell_head: int,
    proposed_buy_tail: int,
    proposed_sell_tail: int,
    min_dist: int,
)
    requires
        proposed_buy_tail < buy_head ==> min_dist <= dec_div(
            buy_head - proposed_buy_tail,
            buy_head,
        ),
        sell_head < proposed_sell_tail ==> min_dist <= dec_div(
            proposed_sell_tail - sell_head,
            sell_head,
        ),
    ensures
        spec_buy_tail(buy_head, proposed_buy_tail, min_dist) == proposed_buy_tail,
        spec_sell_tail(sell_head, proposed_sell_tail, min_dist) == proposed_sell_tail,
{
}

/// The spread guard only tightens: it never returns a tail closer to its
/// head than the proposed one. The buy tail can only move down, the sell
/// tail only up.
pub proof fn lemma_tail_dist_only_tightens(
    buy_head: int,
    sell_head: int,
    proposed_buy_tail: int,
    proposed_sell_tail: int,
    min_dist: int,
)
    requires
        0 < buy_head,
        0 < sell_head,
        0 <= proposed_buy_tail,
        0 <= proposed_sell_tail,
        0 <= min_dist <= SCALE,
    ensures
        spec_buy_tail(buy_head, proposed_buy_tail, min_dist) <= proposed_buy_tail,
        spec_sell_tail(sell_head, proposed_sell_tail, min_dist) >= proposed_sell_tail,
{
    let s = SCALE as int;
    // buy side: a clamped tail lands strictly below the proposed one
    if proposed_buy_tail < buy_head && dec_div(buy_head - proposed_buy_tail, buy_head)
        < min_dist {
        let t = dec_mul(buy_head, s - min_dist);
        lemma_mul_nonnegative(buy_head - proposed_buy_tail, s);
        lemma_div_lt_implies((buy_head - proposed_buy_tail) * s, buy_head, min_dist);
        lemma_fundamental_div_mod(buy_head * (s - min_dist), s);
        lemma_mod_division_less_than_divisor(buy_head * (s - min_dist), s);
        assert(t * s < proposed_buy_tail * s) by (nonlinear_arith)
            requires
                s * t <= buy_head * (s - min_dist),
                (buy_head - proposed_buy_tail) * s < min_dist * buy_head,
        ;
        lemma_mul_strict_inequality_converse(t, proposed_buy_tail, s);
    }
    // sell side: a clamped tail lands at or above the proposed one
    if sell_head < proposed_sell_tail && dec_div(proposed_sell_tail - sell_head, sell_head)
        < min_dist {
        let t = dec_mul(sell_head, s + min_dist);
        lemma_mul_nonnegative(proposed_sell_tail - sell_head, s);
        lemma_div_lt_implies((proposed_sell_tail - sell_head) * s, sell_head, min_dist);
        assert((proposed_sell_tail - sell_head) * s <= min_dist * sell_head - 1);
        lemma_div_is_ordered(
            (proposed_sell_tail - sell_head) * s,
            min_dist * sell_head - 1,
            s,
        );
        assert(((proposed_sell_tail - sell_head) * s) / s == proposed_sell_tail - sell_head) by {
            assert((proposed_sell_tail - sell_head) * s == s * (proposed_sell_tail - sell_head))
                by (nonlinear_arith);
            lemma_div_multiples_vanish(proposed_sell_tail - sell_head, s);
        }
        lemma_div_is_ordered(min_dist * sell_head - 1, min_dist * sell_head, s);
        assert(t == sell_head + (sell_head * min_dist) / s) by {
            assert(sell_head * (s + min_dist) == sell_head * min_dist + sell_head * s)
                by (nonlinear_arith);
            lemma_hoist_over_denominator(sell_head * min_dist, sell_head, SCALE as nat);
        }
        assert(min_dist * sell_head == sell_head * min_dist) by (nonlinear_arith);
    }
}

/// When the guard clamps the buy side, the returned tail sits at exactly the
/// minimum relative distance below the head, up to one atomic part of
/// rounding in the outward direction:
/// `min_dist * head <= (head - tail) * SCALE < min_dist * head + SCALE`.
pub proof fn lemma_buy_tail_floor(buy_head: int, proposed_buy_tail: int, min_dist: int)
    requires
        0 < buy_head,
        0 <= min_dist <= SCALE,
        proposed_buy_tail < buy_head,
        dec_div(buy_head - proposed_buy_tail, buy_head) < min_dist,
    ensures
        min_dist * buy_head <= (buy_head - spec_buy_tail(buy_head, proposed_buy_tail, min_dist))
            * (SCALE as int) < min_dist * buy_head + SCALE,
{
    let s = SCALE as int;
    let bt = dec_mul(buy_head, s - min_dist);
    lemma_fundamental_div_mod(buy_head * (s - min_dist), s);
    lemma_mod_division_less_than_divisor(buy_head * (s - min_dist), s);
    let rb = (buy_head * (s - min_dist)) % s;
    assert((buy_head - bt) * s == min_dist * buy_head + rb) by (nonlinear_arith)
        requires
            buy_head * (s - min_dist) == s * bt + rb,
    ;
}

/// When the guard clamps the sell side, the returned tail sits at exactly
/// the minimum relative distance above the head, up to one atomic part of
/// rounding toward the head:
/// `min_dist * head - SCALE < (tail - head) * SCALE <= min_dist * head`.
pub proof fn lemma_sell_tail_floor(sell_head: int, proposed_sell_tail: int, min_dist: int)
    requires
        0 < sell_head,
        0 <= min_dist <= SCALE,
        sell_head < proposed_sell_tail,
        dec_div(proposed_sell_tail - sell_head, sell_head) < min_dist,
    ensures
        min_dist * sell_head - SCALE < (spec_sell_tail(sell_head, proposed_sell_tail, min_dist)
            - sell_head) * (SCALE as int) <= min_dist * sell_head,
{
    let s = SCALE as int;
    let st = dec_mul(sell_head, s + min_dist);
    lemma_fundamental_div_mod(sell_head * (s + min_dist), s);
    lemma_mod_division_less_than_divisor(sell_head * (s + min_dist), s);
    let rs = (sell_head * (s + min_dist)) % s;
    assert((st - sell_head) * s == min_dist * sell_head - rs) by (nonlinear_arith)
        requires
            sell_head * (s + min_dist) == s * st + rs,
    ;
}

/// The safe variance never shrinks past its source: for a standard deviation
/// of at least one whole unit, the variance is at least the standard
/// deviation, and it equals the plainly squared value.
pub proof fn lemma_safe_variance_no_shrink(std_dev: int)
    requires
        SCALE <= std_dev,
    ensures
        std_dev <= spec_safe_variance(std_dev),
        spec_safe_variance(std_dev) == dec_mul(std_dev, std_dev),
{
    lemma_square_no_shrink(std_dev);
    lemma_dec_mul_nonneg(std_dev, std_dev);
    lemma_dec_div_one(dec_mul(std_dev, std_dev));
}

/// A zero standard deviation yields a zero variance: the rescaling loop
/// never runs on zero and the result is zero.
pub proof fn lemma_safe_variance_zero()
    ensures
        spec_safe_variance(0) == 0,
{
    let s = SCALE as int;
    assert((0int) * (0int) == 0) by (nonlinear_arith);
    lemma_div_of0(s);
    assert((0int) * s == 0) by (nonlinear_arith);
    assert(spec_safe_variance_loop(0, s) == dec_div(dec_mul(0, 0), s));
}

/// The two inventory modes are exhaustive and mutually exclusive: with the
/// caller's flag matching the configured one, the snapshot is consistent
/// exactly when either the strategy is in derivative mode with a zero base
/// balance, or in spot mode with no derivative position present. A flag
/// mismatch is never consistent.
pub proof fn lemma_consistency_two_modes(
    is_deriv: bool,
    position_present: bool,
    inv_base_bal: int,
    state_is_deriv: bool,
)
    ensures
        spec_consistent(is_deriv, position_present, inv_base_bal, is_deriv) <==> ((is_deriv
            && inv_base_bal == 0) || (!is_deriv && !position_present)),
        is_deriv != state_is_deriv ==> !spec_consistent(
            is_deriv,
            position_present,
            inv_base_bal,
            state_is_deriv,
        ),
{
}

} // verus!
