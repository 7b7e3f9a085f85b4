//! Fees of the messages transactions: conversion of token amounts between the
//! bridged chains and the fee multiplier of a chain, in the fixed-point numbers
//! of sp-arithmetic.

use vstd::arithmetic::power::{lemma_pow_increases, pow};
use vstd::prelude::*;

use crate::race::{MessageNonce, Weight};

verus! {

/// Accuracy of `FixedU128` of sp-arithmetic: a number is held as its value
/// times this.
pub const FIXED_U128_ACCURACY: u128 = 1_000_000_000_000_000_000;

/// A `FixedU128` of sp-arithmetic, held by its inner value: the number times
/// `FIXED_U128_ACCURACY`.
#[derive(Debug, Clone, Copy, PartialEq, Eq, Structural)]
pub struct FixedPoint {
    /// The number times `FIXED_U128_ACCURACY`.
    pub inner: u128,
}

/// `x`, or `u128::MAX` where it is larger.
pub open spec fn saturate(x: int) -> u128 {
    if x <= u128::MAX {
        x as u128
    } else {
        u128::MAX
    }
}

/// The fixed-point number with inner value `inner` times the integer `n`,
/// rounded down, saturating at `u128::MAX`.
pub open spec fn fixed_mul_int(inner: u128, n: u128) -> u128 {
    saturate(inner * n / (FIXED_U128_ACCURACY as int))
}

/// Inner value of the fixed-point number `n / d`, rounded down, saturating at
/// `u128::MAX`.
pub open spec fn fixed_from_rational(n: u128, d: u128) -> u128 {
    saturate(n * FIXED_U128_ACCURACY / (d as int))
}

/// Calls `FixedPointNumber::saturating_mul_int` of sp-arithmetic on the
/// `FixedU128` with inner value `inner`: the source computes
/// `inner * n / 10^18` exactly, rounded down, and gives `u128::MAX` where that
/// does not fit.
#[verifier::external_body]
fn fixed_saturating_mul_int(inner: u128, n: u128) -> (r: u128)
    ensures
        r == fixed_mul_int(inner, n),
{
    sp_arithmetic::FixedPointNumber::saturating_mul_int(sp_arithmetic::FixedU128::from_inner(inner), n)
}

/// Calls `FixedPointNumber::saturating_from_rational` of sp-arithmetic for a
/// `FixedU128` and hands out its inner value: the source computes
/// `n * 10^18 / d` exactly, rounded down, and gives `u128::MAX` where that does
/// not fit. It panics if `d` is zero.
#[verifier::external_body]
fn fixed_saturating_from_rational(n: u128, d: u128) -> (r: u128)
    requires
        d > 0,
    ensures
        r == fixed_from_rational(n, d),
{
    <sp_arithmetic::FixedU128 as sp_arithmetic::FixedPointNumber>::saturating_from_rational(n, d).into_inner()
}

impl FixedPoint {
    /// The fixed-point number `n / d` (rounded down; the largest one where it
    /// does not fit).
    pub fn saturating_from_rational(n: u128, d: u128) -> (r: FixedPoint)
        requires
            d > 0,
        ensures
            r.inner == fixed_from_rational(n, d),
    {
        FixedPoint { inner: fixed_saturating_from_rational(n, d) }
    }

    /// This number times the integer `n`, rounded down (`u128::MAX` where it
    /// does not fit).
    pub fn saturating_mul_int(self, n: u128) -> (r: u128)
        ensures
            r == fixed_mul_int(self.inner, n),
    {
        fixed_saturating_mul_int(self.inner, n)
    }
}

/// Given delivery transaction fee in target chain tokens and conversion rate to the source
/// chain tokens, compute transaction cost in source chain tokens.
pub fn convert_target_tokens_to_source_tokens(
    target_to_source_conversion_rate: FixedPoint,
    target_transaction_fee: u128,
) -> (r: u128)
    ensures
        r == fixed_mul_int(target_to_source_conversion_rate.inner, target_transaction_fee),
{
    target_to_source_conversion_rate.saturating_mul_int(target_transaction_fee)
}

/// Compute fee multiplier that is used by the chain, given a couple of fees for transactions
/// that only differ in dispatch weights: their adjusted weight fees, and the weight fees that
/// the chain's weight-to-fee conversion gives for their weights (the unadjusted ones).
///
/// The multiplier is the ratio of the differences, each difference saturating at zero. It is
/// only accurate where the weight-to-fee conversion is linear. The larger transaction's
/// unadjusted fee must exceed the smaller one's.
pub fn compute_fee_multiplier(
    smaller_adjusted_weight_fee: u128,
    smaller_tx_unadjusted_weight_fee: u128,
    larger_adjusted_weight_fee: u128,
    larger_tx_unadjusted_weight_fee: u128,
) -> (r: FixedPoint)
    requires
        larger_tx_unadjusted_weight_fee > smaller_tx_unadjusted_weight_fee,
    ensures
        r.inner == fixed_from_rational(
            (if larger_adjusted_weight_fee >= smaller_adjusted_weight_fee {
                larger_adjusted_weight_fee - smaller_adjusted_weight_fee
            } else {
                0
            }) as u128,
            (larger_tx_unadjusted_weight_fee - smaller_tx_unadjusted_weight_fee) as u128,
        ),
{
    let adjusted_weight_fee_difference = larger_adjusted_weight_fee.saturating_sub(smaller_adjusted_weight_fee);
    FixedPoint::saturating_from_rational(
        adjusted_weight_fee_difference,
        larger_tx_unadjusted_weight_fee - smaller_tx_unadjusted_weight_fee,
    )
}

/// Weight of the dispatch fee payments of `total_prepaid_nonces` messages, each
/// weighing `pay_inbound_dispatch_fee_weight`, saturating at the largest weight.
pub open spec fn prepaid_dispatch_weight(total_prepaid_nonces: MessageNonce, pay_inbound_dispatch_fee_weight: Weight) -> Weight {
    if pay_inbound_dispatch_fee_weight * total_prepaid_nonces <= u64::MAX {
        (pay_inbound_dispatch_fee_weight * total_prepaid_nonces) as u64
    } else {
        u64::MAX
    }
}

/// Compute fee that will be refunded to the relayer because dispatch of `total_prepaid_nonces`
/// messages has been paid at the source chain: the fee of their dispatch fee payments
/// (`pay_inbound_dispatch_fee_weight` each, converted by the chain's `weight_to_fee`) times
/// the fee multiplier.
pub fn compute_prepaid_messages_refund<F: Fn(Weight) -> u128>(
    total_prepaid_nonces: MessageNonce,
    fee_multiplier: FixedPoint,
    pay_inbound_dispatch_fee_weight: Weight,
    weight_to_fee: F,
) -> (r: u128)
    requires
        forall|weight: Weight| call_requires(weight_to_fee, (weight,)),
    ensures
        exists|fee: u128|
            {
                &&& call_ensures(
                    weight_to_fee,
                    (prepaid_dispatch_weight(total_prepaid_nonces, pay_inbound_dispatch_fee_weight),),
                    fee,
                )
                &&& r == fixed_mul_int(fee_multiplier.inner, fee)
            },
{
    let weight = match pay_inbound_dispatch_fee_weight.checked_mul(total_prepaid_nonces) {
        Some(weight) => weight,
        None => u64::MAX,
    };
    let fee = weight_to_fee(weight);
    fee_multiplier.saturating_mul_int(fee)
}

/// Inner value of the fixed-point token amount of `balance` smallest units of a token with
/// `token_decimals` decimals: `balance * 10^(18 - token_decimals)` (saturating), or zero if
/// the token has more decimals than the fixed-point numbers.
pub open spec fn token_balance_inner(balance: u128, token_decimals: u32) -> u128 {
    if token_decimals <= 18 {
        saturate(balance * pow(10, (18 - token_decimals) as nat))
    } else {
        0
    }
}

/// Converts a balance in the smallest units of a token into a fixed-point token amount.
pub fn convert_to_token_balance(balance: u128, token_decimals: u32) -> (r: FixedPoint)
    requires
        token_decimals <= 38,
    ensures
        r.inner == token_balance_inner(balance, token_decimals),
{
    if token_decimals > 18 {
        return FixedPoint { inner: 0 };
    }
    let k: u32 = 18 - token_decimals;
    let mut scale: u128 = 1;
    let mut i: u32 = 0;
    proof {
        reveal(pow);
    }
    while i < k
        invariant
            i <= k <= 18,
            scale == pow(10, i as nat),
        decreases k - i,
    {
        proof {
            lemma_pow_increases(10, i as nat, 17);
            assert(pow(10, 17) == 100_000_000_000_000_000) by {
                reveal_with_fuel(pow, 18);
            }
            reveal(pow);
        }
        scale = scale * 10;
        i = i + 1;
        proof {
            reveal(pow);
        }
    }
    let inner = match balance.checked_mul(scale) {
        Some(inner) => inner,
        None => u128::MAX,
    };
    FixedPoint { inner }
}

/// Additional dispatch weight of the transaction whose fee is estimated to find
/// the fee multiplier of the target chain.
pub const WEIGHT_DIFFERENCE: Weight = 100;

/// Fee of a transaction, as the target node estimates it.
#[derive(Debug, Clone, Copy, PartialEq, Eq, Structural)]
pub struct TransactionFee {
    /// The whole inclusion fee.
    pub inclusion_fee: u128,
    /// The part of it that pays for the weight, after the fee multiplier.
    pub adjusted_weight_fee: u128,
}

/// What is estimated, besides the delivery transaction's fee, to find the refund
/// of prepaid messages: the adjusted weight fee of the same transaction with
/// `WEIGHT_DIFFERENCE` more dispatch weight, and the unadjusted weight fees of
/// both dispatch weights.
#[derive(Debug, Clone, Copy, PartialEq, Eq, Structural)]
pub struct RefundEstimate {
    /// Adjusted weight fee of the transaction with the larger dispatch weight.
    pub larger_adjusted_weight_fee: u128,
    /// Unadjusted weight fee of the delivery transaction's dispatch weight.
    pub smaller_unadjusted_weight_fee: u128,
    /// Unadjusted weight fee of the larger dispatch weight.
    pub larger_unadjusted_weight_fee: u128,
}

/// `a - b`, or zero where `b` is larger.
pub open spec fn saturating_difference(a: u128, b: u128) -> u128 {
    if a >= b {
        (a - b) as u128
    } else {
        0
    }
}

/// The dispatch weight of the transaction whose fee is estimated to find the fee
/// multiplier: `WEIGHT_DIFFERENCE` more than the delivery transaction's
/// (saturating).
pub fn larger_dispatch_weight(total_dispatch_weight: Weight) -> (r: Weight)
    ensures
        r == if total_dispatch_weight + WEIGHT_DIFFERENCE <= u64::MAX {
            (total_dispatch_weight + WEIGHT_DIFFERENCE) as u64
        } else {
            u64::MAX
        },
{
    match total_dispatch_weight.checked_add(WEIGHT_DIFFERENCE) {
        Some(weight) => weight,
        None => u64::MAX,
    }
}

/// Cost of a messages delivery transaction in source chain tokens: its inclusion
/// fee less what is refunded for the `total_prepaid_nonces` messages whose
/// dispatch has been paid at the source chain (nothing where there are none;
/// otherwise `compute_prepaid_messages_refund` with the multiplier that
/// `compute_fee_multiplier` finds from the estimate), converted at the target
/// to source conversion rate.
pub fn delivery_cost_in_source_tokens<F: Fn(Weight) -> u128>(
    conversion_rate: FixedPoint,
    delivery_tx_fee: TransactionFee,
    total_prepaid_nonces: MessageNonce,
    refund_estimate: Option<RefundEstimate>,
    pay_inbound_dispatch_fee_weight: Weight,
    weight_to_fee: F,
) -> (r: u128)
    requires
        total_prepaid_nonces != 0 ==> (refund_estimate matches Some(estimate)
            && estimate.larger_unadjusted_weight_fee > estimate.smaller_unadjusted_weight_fee),
        forall|weight: Weight| call_requires(weight_to_fee, (weight,)),
    ensures
        total_prepaid_nonces == 0 ==> r == fixed_mul_int(conversion_rate.inner, delivery_tx_fee.inclusion_fee),
        total_prepaid_nonces != 0 ==> exists|fee: u128|
            {
                let estimate = refund_estimate->0;
                let multiplier = fixed_from_rational(
                    saturating_difference(estimate.larger_adjusted_weight_fee, delivery_tx_fee.adjusted_weight_fee),
                    (estimate.larger_unadjusted_weight_fee - estimate.smaller_unadjusted_weight_fee) as u128,
                );
                &&& #[trigger] call_ensures(
                    weight_to_fee,
                    (prepaid_dispatch_weight(total_prepaid_nonces, pay_inbound_dispatch_fee_weight),),
                    fee,
                )
                &&& r == fixed_mul_int(
                    conversion_rate.inner,
                    saturating_difference(delivery_tx_fee.inclusion_fee, fixed_mul_int(multiplier, fee)),
                )
            },
{
    let refund = if total_prepaid_nonces != 0 {
        let estimate = match refund_estimate {
            Some(estimate) => estimate,
            None => return 0,
        };
        let fee_multiplier = compute_fee_multiplier(
            delivery_tx_fee.adjusted_weight_fee,
            estimate.smaller_unadjusted_weight_fee,
            estimate.larger_adjusted_weight_fee,
            estimate.larger_unadjusted_weight_fee,
        );
        compute_prepaid_messages_refund(
            total_prepaid_nonces,
            fee_multiplier,
            pay_inbound_dispatch_fee_weight,
            weight_to_fee,
        )
    } else {
        0
    };
    convert_target_tokens_to_source_tokens(conversion_rate, delivery_tx_fee.inclusion_fee.saturating_sub(refund))
}

} // verus!
