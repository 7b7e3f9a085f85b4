use bridge_relays::fees::{
    delivery_cost_in_source_tokens, larger_dispatch_weight, RefundEstimate, TransactionFee, WEIGHT_DIFFERENCE,
    compute_fee_multiplier, compute_prepaid_messages_refund, convert_target_tokens_to_source_tokens,
    convert_to_token_balance, FixedPoint,
};
use sp_arithmetic::{FixedPointNumber, FixedU128};

fn fixed(n: u128, d: u128) -> FixedPoint {
    FixedPoint::saturating_from_rational(n, d)
}

#[test]
fn fixed_point_matches_sp_arithmetic() {
    assert_eq!(fixed(150, 100).inner, FixedU128::saturating_from_rational(150u128, 100u128).into_inner());
    assert_eq!(fixed(1, 3).inner, 333_333_333_333_333_333);
    assert_eq!(fixed(u128::MAX, 1).inner, u128::MAX);
    assert_eq!(fixed(3, 2).saturating_mul_int(7), 10);
    assert_eq!(fixed(2, 1).saturating_mul_int(u128::MAX), u128::MAX);
}

#[test]
fn convert_target_tokens_to_source_tokens_works() {
    assert_eq!(convert_target_tokens_to_source_tokens(fixed(150, 100), 1_000), 1_500);
    assert_eq!(convert_target_tokens_to_source_tokens(fixed(50, 100), 1_000), 500);
    assert_eq!(convert_target_tokens_to_source_tokens(fixed(100, 100), 1_000), 1_000);
}

#[test]
fn compute_fee_multiplier_returns_sane_results() {
    let multiplier = fixed(1, 1000);
    let weight_to_fee = |weight: u128| weight * 1_000;

    let smaller_weight = 1_000_000;
    let smaller_adjusted_weight_fee = multiplier.saturating_mul_int(weight_to_fee(smaller_weight));

    let larger_weight = smaller_weight + 200_000;
    let larger_adjusted_weight_fee = multiplier.saturating_mul_int(weight_to_fee(larger_weight));

    assert_eq!(
        compute_fee_multiplier(
            smaller_adjusted_weight_fee,
            weight_to_fee(smaller_weight),
            larger_adjusted_weight_fee,
            weight_to_fee(larger_weight),
        ),
        multiplier,
    );
}

#[test]
fn fee_multiplier_is_zero_when_adjusted_fee_drops() {
    assert_eq!(compute_fee_multiplier(10, 100, 5, 200), fixed(0, 1));
}

#[test]
fn compute_prepaid_messages_refund_returns_sane_results() {
    let pay_weight = 1_000u64;
    let refund = compute_prepaid_messages_refund(10, fixed(110, 100), pay_weight, |weight: u64| weight as u128);
    assert_eq!(refund, 11_000);
    assert!(refund > (10 * pay_weight) as u128);
}

#[test]
fn prepaid_dispatch_weight_saturates() {
    let refund = compute_prepaid_messages_refund(u64::MAX, fixed(1, 1), 2, |weight: u64| weight as u128);
    assert_eq!(refund, u64::MAX as u128);
}

#[test]
fn token_decimals_used_properly() {
    let plancks = 425_000_000_000;
    let token_decimals = 10;
    let dots = convert_to_token_balance(plancks, token_decimals);
    assert_eq!(dots, fixed(425, 10));
}

#[test]
fn token_balance_of_many_decimals() {
    assert_eq!(convert_to_token_balance(7, 18).inner, 7);
    assert_eq!(convert_to_token_balance(7, 0).inner, 7_000_000_000_000_000_000);
    assert_eq!(convert_to_token_balance(7, 19).inner, 0);
    assert_eq!(convert_to_token_balance(u128::MAX, 1).inner, u128::MAX);
}

#[test]
fn delivery_cost_without_prepaid_messages_is_converted_inclusion_fee() {
    let fee = TransactionFee { inclusion_fee: 1_000, adjusted_weight_fee: 300 };
    assert_eq!(delivery_cost_in_source_tokens(fixed(150, 100), fee, 0, None, 10, |weight: u64| weight as u128), 1_500);
}

#[test]
fn delivery_cost_deducts_refund_of_prepaid_messages() {
    // multiplier 1/2: adjusted weight fees differ by 50 where unadjusted ones differ by 100
    let fee = TransactionFee { inclusion_fee: 1_000, adjusted_weight_fee: 300 };
    let estimate = RefundEstimate {
        larger_adjusted_weight_fee: 350,
        smaller_unadjusted_weight_fee: 600,
        larger_unadjusted_weight_fee: 700,
    };
    // refund: 4 messages * 100 weight, fee 400, times 1/2 = 200; cost (1_000 - 200) * 2
    let cost = delivery_cost_in_source_tokens(fixed(2, 1), fee, 4, Some(estimate), 100, |weight: u64| weight as u128);
    assert_eq!(cost, 1_600);
    // a refund above the inclusion fee leaves nothing to pay
    let cost = delivery_cost_in_source_tokens(fixed(2, 1), fee, 40, Some(estimate), 100, |weight: u64| weight as u128);
    assert_eq!(cost, 0);
}

#[test]
fn larger_dispatch_weight_saturates() {
    assert_eq!(WEIGHT_DIFFERENCE, 100);
    assert_eq!(larger_dispatch_weight(1_000), 1_100);
    assert_eq!(larger_dispatch_weight(u64::MAX - 10), u64::MAX);
}
