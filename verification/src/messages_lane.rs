//! Limits of the transactions that deliver messages to the bridged chain.

use vstd::prelude::*;

use crate::race::{MessageNonce, Weight};

verus! {

/// Weights of the parts of a messages delivery transaction, as the weights of
/// the messages pallet at the target chain give them.
#[derive(Debug, Clone, Copy, PartialEq, Eq)]
pub struct DeliveryWeights {
    /// Weight of the `receive_messages_proof` call itself.
    pub receive_messages_proof_overhead: Weight,
    /// Weight that the outbound lane state in the proof adds.
    pub receive_messages_proof_outbound_lane_state_overhead: Weight,
    /// Weight that a single message in the proof adds.
    pub receive_messages_proof_messages_overhead: Weight,
}

impl DeliveryWeights {
    /// Weight of a delivery transaction without messages.
    pub open spec fn base(self) -> int {
        self.receive_messages_proof_overhead + self.receive_messages_proof_outbound_lane_state_overhead
    }

    /// The weights leave room in a transaction of `max_extrinsic_weight` for at
    /// least one message, and there is a message to deliver: the relay refuses
    /// to run otherwise.
    pub open spec fn fit(self, max_extrinsic_weight: Weight, max_unconfirmed_messages_at_inbound_lane: MessageNonce) -> bool {
        &&& self.receive_messages_proof_messages_overhead > 0
        &&& self.base() + self.receive_messages_proof_messages_overhead <= max_extrinsic_weight / 3
        &&& max_unconfirmed_messages_at_inbound_lane > 0
    }
}

/// Maximal number of messages in a delivery transaction: as many as the third
/// of the maximal transaction weight that is left for the transaction itself
/// pays for, and no more than the inbound lane may leave unconfirmed.
pub open spec fn max_messages_in_delivery(
    max_extrinsic_weight: Weight,
    max_unconfirmed_messages_at_inbound_lane: MessageNonce,
    weights: DeliveryWeights,
) -> int {
    let by_weight = (max_extrinsic_weight / 3 - weights.base()) / (weights.receive_messages_proof_messages_overhead as int);
    if by_weight < max_unconfirmed_messages_at_inbound_lane {
        by_weight
    } else {
        max_unconfirmed_messages_at_inbound_lane as int
    }
}

/// Returns maximal number of messages and their maximal cumulative dispatch weight, based
/// on given chain parameters.
///
/// A third of the maximal transaction weight is for the transaction itself and
/// the rest is for the dispatch of the messages, which is then never less than
/// half of the maximal weight. The weights of the transaction's parts come
/// from the messages pallet of the target chain.
pub fn select_delivery_transaction_limits(
    max_extrinsic_weight: Weight,
    max_unconfirmed_messages_at_inbound_lane: MessageNonce,
    weights: DeliveryWeights,
) -> (r: (MessageNonce, Weight))
    requires
        weights.fit(max_extrinsic_weight, max_unconfirmed_messages_at_inbound_lane),
    ensures
        r.0 == max_messages_in_delivery(max_extrinsic_weight, max_unconfirmed_messages_at_inbound_lane, weights),
        r.1 == max_extrinsic_weight - max_extrinsic_weight / 3,
        0 < r.0 <= max_unconfirmed_messages_at_inbound_lane,
        weights.base() + r.0 * weights.receive_messages_proof_messages_overhead <= max_extrinsic_weight / 3,
        r.1 >= max_extrinsic_weight / 2,
{
    let weight_for_delivery_tx = max_extrinsic_weight / 3;
    let weight_for_messages_dispatch = max_extrinsic_weight - weight_for_delivery_tx;
    let delivery_tx_base_weight = weights.receive_messages_proof_overhead
        + weights.receive_messages_proof_outbound_lane_state_overhead;
    let delivery_tx_weight_rest = weight_for_delivery_tx - delivery_tx_base_weight;
    let overhead = weights.receive_messages_proof_messages_overhead;
    let by_weight = delivery_tx_weight_rest / overhead;
    let max_number_of_messages = if by_weight < max_unconfirmed_messages_at_inbound_lane {
        by_weight
    } else {
        max_unconfirmed_messages_at_inbound_lane
    };
    proof {
        assert(by_weight * overhead <= delivery_tx_weight_rest) by (nonlinear_arith)
            requires
                overhead > 0,
                by_weight == delivery_tx_weight_rest / overhead,
        ;
        assert(by_weight >= 1) by (nonlinear_arith)
            requires
                overhead > 0,
                delivery_tx_weight_rest >= overhead,
                by_weight == delivery_tx_weight_rest / overhead,
        ;
        assert(max_number_of_messages * overhead <= by_weight * overhead) by (nonlinear_arith)
            requires
                max_number_of_messages <= by_weight,
        ;
    }
    (max_number_of_messages, weight_for_messages_dispatch)
}

} // verus!
