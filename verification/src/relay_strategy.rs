//! Rational relay strategy: the relayer will deliver all messages and
//! confirmations as long as he's not losing any funds.

use vstd::prelude::*;

use std::ops::RangeInclusive;

use crate::message_details::MessageDetails;
use crate::race::{MessageNonce, Weight};

verus! {

/// What the relayer knows of the messages that it considers for delivery, and
/// of their rewards and costs (in source chain tokens).
#[derive(Debug, Clone)]
pub struct RelayReference {
    /// Reward of the messages selected so far.
    pub selected_reward: u128,
    /// Cost of the messages selected so far.
    pub selected_cost: u128,
    /// Size of the messages selected so far.
    pub selected_size: usize,
    /// Reward of all messages considered so far.
    pub total_reward: u128,
    /// Cost of the confirmation transactions of all messages considered so far.
    pub total_confirmations_cost: u128,
    /// Cost of the delivery and confirmation of all messages considered so far.
    pub total_cost: u128,
    /// First nonce of the messages that must be delivered.
    pub hard_selected_begin_nonce: MessageNonce,
    /// Number of selected messages whose dispatch is prepaid at the source chain.
    pub selected_prepaid_nonces: MessageNonce,
    /// Dispatch weight of selected messages whose dispatch is not prepaid.
    pub selected_unpaid_weight: Weight,
    /// Index of the considered message after the first one.
    pub index: usize,
    /// Nonce of the considered message.
    pub nonce: MessageNonce,
    /// Details of the considered message.
    pub details: MessageDetails,
}

/// The relayer will deliver all messages and confirmations as long as he's not losing any
/// funds.
#[derive(Debug, Clone, Copy)]
pub struct RationalStrategy;

/// Sum of two balances, saturating at the largest one.
pub open spec fn saturating_sum(a: u128, b: u128) -> u128 {
    if a + b <= u128::MAX {
        (a + b) as u128
    } else {
        u128::MAX
    }
}

impl RationalStrategy {
    /// The nonces whose delivery transaction cost has to be estimated: from the
    /// first nonce that must be delivered up to the considered message.
    pub fn delivery_estimate_nonces(&self, reference: &RelayReference) -> (r: RangeInclusive<MessageNonce>)
        requires
            reference.hard_selected_begin_nonce + reference.index <= u64::MAX,
        ensures
            r@.start == reference.hard_selected_begin_nonce,
            r@.end == reference.hard_selected_begin_nonce + reference.index,
            !r@.exhausted,
    {
        RangeInclusive::new(
            reference.hard_selected_begin_nonce,
            reference.hard_selected_begin_nonce + reference.index as u64,
        )
    }

    /// Decide whether the considered message is delivered, given the estimated
    /// cost of its confirmation transaction and of the delivery transaction of
    /// the messages up to it (`None` if the estimate has failed: then nothing is
    /// delivered and nothing changes).
    ///
    /// The confirmation cost and the reward of the message are added to the
    /// totals, and the total cost becomes the confirmations cost with the
    /// delivery cost (sums saturate). The message is delivered when the total
    /// reward covers the total cost: the totals then become the selected ones.
    pub fn decide(
        &mut self,
        reference: &mut RelayReference,
        confirmation_transaction_cost: u128,
        delivery_transaction_cost: Option<u128>,
    ) -> (r: bool)
        ensures
            delivery_transaction_cost is None ==> !r && *final(reference) == *old(reference),
            delivery_transaction_cost matches Some(delivery_cost) ==> {
                let confirmations = saturating_sum(old(reference).total_confirmations_cost, confirmation_transaction_cost);
                let reward = saturating_sum(old(reference).total_reward, old(reference).details.reward);
                let cost = saturating_sum(confirmations, delivery_cost);
                &&& final(reference).total_confirmations_cost == confirmations
                &&& final(reference).total_reward == reward
                &&& final(reference).total_cost == cost
                &&& r == (reward >= cost)
                &&& r ==> final(reference).selected_reward == reward && final(reference).selected_cost == cost
                &&& !r ==> final(reference).selected_reward == old(reference).selected_reward
                    && final(reference).selected_cost == old(reference).selected_cost
                &&& final(reference).selected_size == old(reference).selected_size
                &&& final(reference).hard_selected_begin_nonce == old(reference).hard_selected_begin_nonce
                &&& final(reference).selected_prepaid_nonces == old(reference).selected_prepaid_nonces
                &&& final(reference).selected_unpaid_weight == old(reference).selected_unpaid_weight
                &&& final(reference).index == old(reference).index
                &&& final(reference).nonce == old(reference).nonce
                &&& final(reference).details == old(reference).details
            },
    {
        let delivery_transaction_cost = match delivery_transaction_cost {
            Some(cost) => cost,
            None => return false,
        };
        reference.total_confirmations_cost =
            reference.total_confirmations_cost.saturating_add(confirmation_transaction_cost);
        reference.total_reward = reference.total_reward.saturating_add(reference.details.reward);
        reference.total_cost = reference.total_confirmations_cost.saturating_add(delivery_transaction_cost);
        if reference.total_reward >= reference.total_cost {
            reference.selected_reward = reference.total_reward;
            reference.selected_cost = reference.total_cost;
            return true;
        }
        false
    }
}

} // verus!
