use maker::decimal::{add_dec, div_dec, mul_dec, sub_abs, sub_no_overflow, Decimal};
use maker::msg::WrappedPosition;
use maker::risk_management::{check_tail_dist, get_alloc_bal_new_orders, safe_variance, sanity_check};
use maker::state::State;

fn position() -> WrappedPosition {
    WrappedPosition {
        is_long: true,
        quantity: Decimal::from_int(1),
        entry_price: Decimal::from_int(100),
        margin: Decimal::from_int(10),
    }
}

#[test]
fn safe_variance_test() {
    let std_dev = Decimal::from_int(2);
    let variance = safe_variance(std_dev);
    assert_eq!(variance, Decimal::from_int(4));

    let std_dev = Decimal::from_ratio(4, 10);
    let variance = safe_variance(std_dev);
    assert_eq!(variance, Decimal::from_ratio(16, 10));
}

#[test]
fn get_alloc_bal_new_orders_test() {
    let inv_val = Decimal::from_int(100000);
    let active_capital_perct = Decimal::from_ratio(2, 10);
    let margin = Decimal::zero();

    let alloc_bal_a = get_alloc_bal_new_orders(inv_val, margin, active_capital_perct);
    let alloc_bal_b = get_alloc_bal_new_orders(inv_val, margin, active_capital_perct);
    assert_eq!(alloc_bal_a, alloc_bal_b);
    assert_eq!(alloc_bal_a, mul_dec(Decimal::from_ratio(1, 10), inv_val));

    let active_capital_perct = Decimal::from_ratio(1, 10);
    let alloc_bal_a = get_alloc_bal_new_orders(inv_val, margin, active_capital_perct);
    let margin = Decimal::from_int(5000);
    let alloc_bal_b = get_alloc_bal_new_orders(inv_val, margin, active_capital_perct);
    assert_eq!(alloc_bal_a, Decimal::from_int(5000));
    assert_eq!(alloc_bal_b, Decimal::from_int(4500));
}

#[test]
fn check_tail_dist_test() {
    let buy_head = Decimal::from_int(3999);
    let sell_head = Decimal::from_int(4001);
    let proposed_buy_tail = Decimal::from_int(2000);
    let proposed_sell_tail = Decimal::from_int(7000);
    let min_tail_dist_perct = Decimal::from_ratio(1, 100);
    let (buy_tail, sell_tail) = check_tail_dist(
        buy_head,
        sell_head,
        proposed_buy_tail,
        proposed_sell_tail,
        min_tail_dist_perct,
    );
    assert_eq!(buy_tail, proposed_buy_tail);
    assert_eq!(sell_tail, proposed_sell_tail);

    let proposed_buy_tail = Decimal::from_int(3998);
    let proposed_sell_tail = Decimal::from_int(4002);
    let (buy_tail, sell_tail) = check_tail_dist(
        buy_head,
        sell_head,
        proposed_buy_tail,
        proposed_sell_tail,
        min_tail_dist_perct,
    );
    assert_eq!(buy_tail, mul_dec(buy_head, sub_abs(Decimal::one(), min_tail_dist_perct)));
    assert_eq!(sell_tail, mul_dec(sell_head, add_dec(Decimal::one(), min_tail_dist_perct)));
}

#[test]
fn check_tail_dist_clamps_to_exact_distance() {
    let buy_head = Decimal::from_int(3999);
    let sell_head = Decimal::from_int(4001);
    let min_tail_dist_perct = Decimal::from_ratio(1, 100);
    let (buy_tail, sell_tail) = check_tail_dist(
        buy_head,
        sell_head,
        Decimal::from_int(3998),
        Decimal::from_int(4002),
        min_tail_dist_perct,
    );
    // 3999 * 0.99 and 4001 * 1.01, exactly
    assert_eq!(buy_tail, Decimal::from_ratio(395901, 100));
    assert_eq!(sell_tail, Decimal::from_ratio(404101, 100));
}

#[test]
fn check_tail_dist_passes_inverted_ladder_through() {
    let buy_head = Decimal::from_int(100);
    let sell_head = Decimal::from_int(200);
    let proposed_buy_tail = Decimal::from_int(150);
    let proposed_sell_tail = Decimal::from_int(150);
    let (buy_tail, sell_tail) = check_tail_dist(
        buy_head,
        sell_head,
        proposed_buy_tail,
        proposed_sell_tail,
        Decimal::from_ratio(1, 100),
    );
    assert_eq!(buy_tail, proposed_buy_tail);
    assert_eq!(sell_tail, proposed_sell_tail);
}

#[test]
fn get_alloc_bal_zero_margin_identity() {
    // allocate(100000, 0, 0.2) == (100000 * 0.2) / 2 == 10000
    let alloc = get_alloc_bal_new_orders(
        Decimal::from_int(100000),
        Decimal::zero(),
        Decimal::from_ratio(2, 10),
    );
    assert_eq!(alloc, Decimal::from_int(10000));
}

#[test]
fn get_alloc_bal_margin_strictly_reduces() {
    let inv_val = Decimal::from_int(100000);
    let f = Decimal::from_ratio(1, 10);
    let with_margin =
        get_alloc_bal_new_orders(inv_val, Decimal::from_int(5000), f);
    let without_margin = get_alloc_bal_new_orders(inv_val, Decimal::zero(), f);
    assert!(with_margin.atomics < without_margin.atomics);
}

#[test]
fn get_alloc_bal_margin_above_inventory_allocates_nothing() {
    let alloc = get_alloc_bal_new_orders(
        Decimal::from_int(100),
        Decimal::from_int(1000000),
        Decimal::from_ratio(5, 10),
    );
    assert_eq!(alloc, Decimal::zero());
}

#[test]
fn safe_variance_edge_values() {
    assert_eq!(safe_variance(Decimal::zero()), Decimal::zero());
    assert_eq!(safe_variance(Decimal::one()), Decimal::one());
    // 0.1 rescales to 1.0 before squaring; the squared value scales back to 0.1
    assert_eq!(
        safe_variance(Decimal::from_ratio(1, 10)),
        Decimal::from_ratio(1, 10),
    );
    // above one unit the result is the plain square and never shrinks
    let sd = Decimal::from_ratio(3, 2);
    let variance = safe_variance(sd);
    assert_eq!(variance, Decimal::from_ratio(9, 4));
    assert!(variance.atomics >= sd.atomics);
}

#[test]
fn sanity_check_accepts_the_two_modes() {
    let deriv_state = State { is_deriv: true };
    let spot_state = State { is_deriv: false };
    // derivative mode: base balance must be zero, position may be open
    assert!(sanity_check(true, &Some(position()), Decimal::zero(), &deriv_state).is_ok());
    assert!(sanity_check(true, &None, Decimal::zero(), &deriv_state).is_ok());
    // spot mode: no derivative position, any base balance
    assert!(sanity_check(false, &None, Decimal::from_int(7), &spot_state).is_ok());
    assert!(sanity_check(false, &None, Decimal::zero(), &spot_state).is_ok());
}

#[test]
fn sanity_check_rejects_everything_else() {
    let deriv_state = State { is_deriv: true };
    let spot_state = State { is_deriv: false };
    // derivative mode with a nonzero base balance
    assert!(sanity_check(true, &None, Decimal::from_int(1), &deriv_state).is_err());
    assert!(sanity_check(true, &Some(position()), Decimal::from_int(1), &deriv_state).is_err());
    // spot mode with an open derivative position
    assert!(sanity_check(false, &Some(position()), Decimal::zero(), &spot_state).is_err());
    assert!(sanity_check(false, &Some(position()), Decimal::from_int(1), &spot_state).is_err());
    // flag disagreeing with the configured state
    assert!(sanity_check(true, &None, Decimal::zero(), &spot_state).is_err());
    assert!(sanity_check(false, &None, Decimal::zero(), &deriv_state).is_err());
}

#[test]
fn decimal_arithmetic_rounds_down() {
    // 1 / 3 keeps eighteen digits and truncates
    let third = div_dec(Decimal::from_int(1), Decimal::from_int(3));
    assert_eq!(third, Decimal::from_atomics(333333333333333333));
    // the product of two single atomic parts truncates to zero
    let tiny = mul_dec(Decimal::from_atomics(1), Decimal::from_atomics(1));
    assert_eq!(tiny, Decimal::zero());
    // saturating subtraction clamps at zero
    let clamped = sub_no_overflow(Decimal::from_int(3), Decimal::from_int(5));
    assert_eq!(clamped, Decimal::zero());
    // absolute difference is symmetric
    assert_eq!(
        sub_abs(Decimal::from_int(3), Decimal::from_int(5)),
        sub_abs(Decimal::from_int(5), Decimal::from_int(3)),
    );
    assert_eq!(
        sub_abs(Decimal::from_int(3), Decimal::from_int(5)),
        Decimal::from_int(2),
    );
}

#[test]
fn decimal_constructors_agree() {
    assert_eq!(Decimal::from_ratio(4, 2), Decimal::from_int(2));
    assert_eq!(Decimal::from_ratio(1, 2), Decimal::from_atomics(500000000000000000));
    assert_eq!(Decimal::from_int(0), Decimal::zero());
    assert_eq!(Decimal::from_ratio(10, 10), Decimal::one());
    assert!(Decimal::zero().is_zero());
    assert!(!Decimal::one().is_zero());
    assert!(Decimal::zero().lt(Decimal::one()));
    assert!(!Decimal::one().lt(Decimal::one()));
}
