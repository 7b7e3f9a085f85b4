use std::collections::VecDeque;
use std::ops::RangeInclusive;

use bridge_relays::delivery::{
    DeliveryRaceTargetNoncesData, MessageDeliveryParams, MessageDeliveryStrategy, MessageProofParameters,
    MessageWeights, MessageWeightsMap, UnrewardedRelayersState,
};
use bridge_relays::race::{
    BasicStrategy, MessageNonce, NoncesRange, RaceState, SourceClientNonces, TargetClientNonces, Weight,
};
use bridge_relays::utils::HeaderId;

type TestMessagesProof = (RangeInclusive<MessageNonce>, Option<MessageNonce>);
type TestRaceState = RaceState<TestMessagesProof>;

fn header_id(number: u64) -> HeaderId {
    HeaderId(number, number)
}

fn weights_map(entries: Vec<(MessageNonce, MessageWeights)>) -> MessageWeightsMap {
    let mut map = MessageWeightsMap::new();
    for (nonce, weights) in entries {
        map.insert(nonce, weights);
    }
    map
}

fn prepare_strategy_with(first_message: MessageWeights) -> (TestRaceState, MessageDeliveryStrategy) {
    let mut race_state = RaceState {
        best_finalized_source_header_id_at_source: Some(header_id(1)),
        best_finalized_source_header_id_at_best_target: Some(header_id(1)),
        best_target_header_id: Some(header_id(1)),
        best_finalized_target_header_id: Some(header_id(1)),
        nonces_to_submit: None,
        nonces_submitted: None,
    };

    let mut race_strategy = MessageDeliveryStrategy {
        max_unrewarded_relayer_entries_at_target: 4,
        max_unconfirmed_nonces_at_target: 4,
        max_messages_in_single_batch: 4,
        max_messages_weight_in_single_batch: 4,
        max_messages_size_in_single_batch: 4,
        latest_confirmed_nonces_at_source: vec![(header_id(1), 19)].into_iter().collect(),
        target_nonces: Some(TargetClientNonces {
            latest_nonce: 19,
            nonces_data: DeliveryRaceTargetNoncesData {
                confirmed_nonce: 19,
                unrewarded_relayers: UnrewardedRelayersState {
                    unrewarded_relayer_entries: 0,
                    messages_in_oldest_entry: 0,
                    total_messages: 0,
                },
            },
        }),
        strategy: BasicStrategy::new(),
    };

    race_strategy.strategy.source_nonces_updated(
        header_id(1),
        SourceClientNonces {
            new_nonces: weights_map(vec![
                (20, first_message),
                (21, MessageWeights { weight: 1, size: 1 }),
                (22, MessageWeights { weight: 1, size: 1 }),
                (23, MessageWeights { weight: 1, size: 1 }),
            ]),
            confirmed_nonce: Some(19),
        },
    );

    let target_nonces = TargetClientNonces { latest_nonce: 19, nonces_data: () };
    race_strategy.strategy.best_target_nonces_updated(target_nonces.clone(), &mut race_state);
    race_strategy.strategy.finalized_target_nonces_updated(target_nonces, &mut race_state);

    (race_state, race_strategy)
}

fn prepare_strategy() -> (TestRaceState, MessageDeliveryStrategy) {
    prepare_strategy_with(MessageWeights { weight: 1, size: 1 })
}

fn proof_parameters(state_required: bool, weight: Weight) -> MessageProofParameters {
    MessageProofParameters { outbound_state_proof_required: state_required, dispatch_weight: weight }
}

fn confirmed_nonces_at_source(strategy: &MessageDeliveryStrategy) -> MessageNonce {
    strategy.latest_confirmed_nonces_at_source.back().unwrap().1
}

#[test]
fn weights_map_works_as_nonces_range() {
    fn build_map(range: RangeInclusive<MessageNonce>) -> MessageWeightsMap {
        weights_map(range.map(|idx| (idx, MessageWeights { weight: idx, size: idx as _ })).collect())
    }

    let map = build_map(20..=30);

    assert_eq!(map.begin(), 20);
    assert_eq!(map.end(), 30);
    assert_eq!(map.clone().greater_than(10), Some(build_map(20..=30)));
    assert_eq!(map.clone().greater_than(19), Some(build_map(20..=30)));
    assert_eq!(map.clone().greater_than(20), Some(build_map(21..=30)));
    assert_eq!(map.clone().greater_than(25), Some(build_map(26..=30)));
    assert_eq!(map.clone().greater_than(29), Some(build_map(30..=30)));
    assert_eq!(map.greater_than(30), None);
}

#[test]
fn message_delivery_strategy_selects_messages_to_deliver() {
    let (state, mut strategy) = prepare_strategy();

    // both sides are ready to relay new messages
    assert_eq!(strategy.select_nonces_to_deliver(&state), Some(((20..=23), proof_parameters(false, 4))));
}

#[test]
fn message_delivery_strategy_selects_nothing_if_too_many_confirmations_missing() {
    let (state, mut strategy) = prepare_strategy();

    // if there are already `max_unconfirmed_nonces_at_target` messages on target,
    // we need to wait until confirmations will be delivered by receiving race
    strategy.latest_confirmed_nonces_at_source = vec![(
        header_id(1),
        strategy.target_nonces.as_ref().unwrap().latest_nonce - strategy.max_unconfirmed_nonces_at_target,
    )]
    .into_iter()
    .collect();
    assert_eq!(strategy.select_nonces_to_deliver(&state), None);
}

#[test]
fn message_delivery_strategy_includes_outbound_state_proof_when_new_nonces_are_available() {
    let (state, mut strategy) = prepare_strategy();

    // if there are new confirmed nonces on source, we want to relay this information
    // to target to prune rewards queue
    let prev_confirmed_nonce_at_source = confirmed_nonces_at_source(&strategy);
    strategy.target_nonces.as_mut().unwrap().nonces_data.confirmed_nonce = prev_confirmed_nonce_at_source - 1;
    assert_eq!(strategy.select_nonces_to_deliver(&state), Some(((20..=23), proof_parameters(true, 4))));
}

#[test]
fn message_delivery_strategy_selects_nothing_if_there_are_too_many_unrewarded_relayers() {
    let (state, mut strategy) = prepare_strategy();

    // if there are already `max_unrewarded_relayer_entries_at_target` entries at target,
    // we need to wait until rewards will be paid
    {
        let max_entries = strategy.max_unrewarded_relayer_entries_at_target;
        let unrewarded_relayers = &mut strategy.target_nonces.as_mut().unwrap().nonces_data.unrewarded_relayers;
        unrewarded_relayers.unrewarded_relayer_entries = max_entries;
        unrewarded_relayers.messages_in_oldest_entry = 4;
    }
    assert_eq!(strategy.select_nonces_to_deliver(&state), None);
}

#[test]
fn message_delivery_strategy_selects_nothing_if_proved_rewards_is_not_enough_to_remove_oldest_unrewarded_entry() {
    let (state, mut strategy) = prepare_strategy();

    // if there are already `max_unrewarded_relayer_entries_at_target` entries at target,
    // we need to prove at least `messages_in_oldest_entry` rewards
    let prev_confirmed_nonce_at_source = confirmed_nonces_at_source(&strategy);
    {
        let max_entries = strategy.max_unrewarded_relayer_entries_at_target;
        let nonces_data = &mut strategy.target_nonces.as_mut().unwrap().nonces_data;
        nonces_data.confirmed_nonce = prev_confirmed_nonce_at_source - 1;
        let unrewarded_relayers = &mut nonces_data.unrewarded_relayers;
        unrewarded_relayers.unrewarded_relayer_entries = max_entries;
        unrewarded_relayers.messages_in_oldest_entry = 4;
    }
    assert_eq!(strategy.select_nonces_to_deliver(&state), None);
}

#[test]
fn message_delivery_strategy_includes_outbound_state_proof_if_proved_rewards_is_enough() {
    let (state, mut strategy) = prepare_strategy();

    // if there are already `max_unrewarded_relayer_entries_at_target` entries at target,
    // we need to prove at least `messages_in_oldest_entry` rewards
    let prev_confirmed_nonce_at_source = confirmed_nonces_at_source(&strategy);
    {
        let max_entries = strategy.max_unrewarded_relayer_entries_at_target;
        let nonces_data = &mut strategy.target_nonces.as_mut().unwrap().nonces_data;
        nonces_data.confirmed_nonce = prev_confirmed_nonce_at_source - 3;
        let unrewarded_relayers = &mut nonces_data.unrewarded_relayers;
        unrewarded_relayers.unrewarded_relayer_entries = max_entries;
        unrewarded_relayers.messages_in_oldest_entry = 3;
    }
    assert_eq!(strategy.select_nonces_to_deliver(&state), Some(((20..=23), proof_parameters(true, 4))));
}

#[test]
fn message_delivery_strategy_limits_batch_by_messages_weight() {
    let (state, mut strategy) = prepare_strategy();

    // not all queued messages may fit in the batch, because batch has max weight
    strategy.max_messages_weight_in_single_batch = 3;
    assert_eq!(strategy.select_nonces_to_deliver(&state), Some(((20..=22), proof_parameters(false, 3))));
}

#[test]
fn message_delivery_strategy_accepts_single_message_even_if_its_weight_overflows_maximal_weight() {
    // first message doesn't fit in the batch, because it has weight (10) that overflows max weight (4)
    let (state, mut strategy) = prepare_strategy_with(MessageWeights { weight: 10, size: 1 });
    assert_eq!(strategy.select_nonces_to_deliver(&state), Some(((20..=20), proof_parameters(false, 10))));
}

#[test]
fn message_delivery_strategy_limits_batch_by_messages_size() {
    let (state, mut strategy) = prepare_strategy();

    // not all queued messages may fit in the batch, because batch has max weight
    strategy.max_messages_size_in_single_batch = 3;
    assert_eq!(strategy.select_nonces_to_deliver(&state), Some(((20..=22), proof_parameters(false, 3))));
}

#[test]
fn message_delivery_strategy_accepts_single_message_even_if_its_weight_overflows_maximal_size() {
    // first message doesn't fit in the batch, because it has weight (10) that overflows max weight (4)
    let (state, mut strategy) = prepare_strategy_with(MessageWeights { weight: 1, size: 10 });
    assert_eq!(strategy.select_nonces_to_deliver(&state), Some(((20..=20), proof_parameters(false, 1))));
}

#[test]
fn message_delivery_strategy_limits_batch_by_messages_count_when_there_is_upper_limit() {
    let (state, mut strategy) = prepare_strategy();

    // not all queued messages may fit in the batch, because batch has max number of messages limit
    strategy.max_messages_in_single_batch = 3;
    assert_eq!(strategy.select_nonces_to_deliver(&state), Some(((20..=22), proof_parameters(false, 3))));
}

#[test]
fn message_delivery_strategy_limits_batch_by_messages_count_when_there_are_unconfirmed_nonces() {
    let (state, mut strategy) = prepare_strategy();

    // 1 delivery confirmation from target to source is still missing, so we may only
    // relay 3 new messages
    let prev_confirmed_nonce_at_source = confirmed_nonces_at_source(&strategy);
    strategy.latest_confirmed_nonces_at_source =
        vec![(header_id(1), prev_confirmed_nonce_at_source - 1)].into_iter().collect();
    strategy.target_nonces.as_mut().unwrap().nonces_data.confirmed_nonce = prev_confirmed_nonce_at_source - 1;
    assert_eq!(strategy.select_nonces_to_deliver(&state), Some(((20..=22), proof_parameters(false, 3))));
}

#[test]
fn message_delivery_strategy_waits_for_confirmed_nonce_header_to_appear_on_target() {
    // 1 delivery confirmation from target to source is still missing, so we may deliver
    // reward confirmation with our message delivery transaction. But the problem is that
    // the reward has been paid at header 2 && this header is still unknown to target node.
    //
    // => so we can't deliver more than 3 messages
    let (mut state, mut strategy) = prepare_strategy();
    let prev_confirmed_nonce_at_source = confirmed_nonces_at_source(&strategy);
    strategy.latest_confirmed_nonces_at_source = vec![
        (header_id(1), prev_confirmed_nonce_at_source - 1),
        (header_id(2), prev_confirmed_nonce_at_source),
    ]
    .into_iter()
    .collect();
    strategy.target_nonces.as_mut().unwrap().nonces_data.confirmed_nonce = prev_confirmed_nonce_at_source - 1;
    state.best_finalized_source_header_id_at_best_target = Some(header_id(1));
    assert_eq!(strategy.select_nonces_to_deliver(&state), Some(((20..=22), proof_parameters(false, 3))));

    // the same situation, but the header 2 is known to the target node, so we may deliver reward confirmation
    let (mut state, mut strategy) = prepare_strategy();
    let prev_confirmed_nonce_at_source = confirmed_nonces_at_source(&strategy);
    strategy.latest_confirmed_nonces_at_source = vec![
        (header_id(1), prev_confirmed_nonce_at_source - 1),
        (header_id(2), prev_confirmed_nonce_at_source),
    ]
    .into_iter()
    .collect();
    strategy.target_nonces.as_mut().unwrap().nonces_data.confirmed_nonce = prev_confirmed_nonce_at_source - 1;
    state.best_finalized_source_header_id_at_source = Some(header_id(2));
    state.best_finalized_source_header_id_at_best_target = Some(header_id(2));
    assert_eq!(strategy.select_nonces_to_deliver(&state), Some(((20..=23), proof_parameters(true, 4))));
}

#[test]
fn selected_messages_leave_the_queue() {
    let (state, mut strategy) = prepare_strategy();
    strategy.max_messages_in_single_batch = 2;
    assert_eq!(strategy.select_nonces_to_deliver(&state), Some(((20..=21), proof_parameters(false, 2))));
    let queued: Vec<MessageNonce> = strategy.strategy.source_queue().iter().map(|(_, map)| map.begin()).collect();
    assert_eq!(queued, vec![22]);
    assert_eq!(strategy.best_at_source(), Some(23));
    assert_eq!(strategy.best_at_target(), Some(19));
}

#[test]
fn confirmed_nonces_are_remembered_once_and_pruned_when_finalized() {
    let params = MessageDeliveryParams {
        max_unrewarded_relayer_entries_at_target: 4,
        max_unconfirmed_nonces_at_target: 4,
        max_messages_in_single_batch: 4,
        max_messages_weight_in_single_batch: 4,
        max_messages_size_in_single_batch: 4,
    };
    let mut strategy = MessageDeliveryStrategy::new(&params);
    assert!(strategy.is_empty());
    strategy.source_nonces_updated(
        header_id(1),
        SourceClientNonces { new_nonces: MessageWeightsMap::new(), confirmed_nonce: Some(5) },
    );
    strategy.source_nonces_updated(
        header_id(2),
        SourceClientNonces { new_nonces: MessageWeightsMap::new(), confirmed_nonce: Some(5) },
    );
    strategy.source_nonces_updated(
        header_id(3),
        SourceClientNonces { new_nonces: MessageWeightsMap::new(), confirmed_nonce: Some(6) },
    );
    let expected: VecDeque<(HeaderId, MessageNonce)> = vec![(header_id(1), 5), (header_id(3), 6)].into_iter().collect();
    assert_eq!(strategy.latest_confirmed_nonces_at_source, expected);

    let mut state = TestRaceState::default();
    state.best_finalized_source_header_id_at_best_target = Some(header_id(2));
    let data = DeliveryRaceTargetNoncesData {
        confirmed_nonce: 0,
        unrewarded_relayers: UnrewardedRelayersState {
            unrewarded_relayer_entries: 0,
            messages_in_oldest_entry: 0,
            total_messages: 0,
        },
    };
    strategy.best_target_nonces_updated(TargetClientNonces { latest_nonce: 7, nonces_data: data }, &mut state);
    strategy.finalized_target_nonces_updated(TargetClientNonces { latest_nonce: 3, nonces_data: data }, &mut state);
    let expected: VecDeque<(HeaderId, MessageNonce)> = vec![(header_id(3), 6)].into_iter().collect();
    assert_eq!(strategy.latest_confirmed_nonces_at_source, expected);
    assert_eq!(strategy.target_nonces.as_ref().unwrap().latest_nonce, 7);
    assert_eq!(strategy.best_at_target(), Some(7));
}

#[test]
fn weights_map_insert_keeps_nonces_in_order() {
    let mut map = MessageWeightsMap::new();
    assert_eq!(map.insert(5, MessageWeights { weight: 5, size: 5 }), None);
    assert_eq!(map.insert(3, MessageWeights { weight: 3, size: 3 }), None);
    assert_eq!(map.insert(4, MessageWeights { weight: 4, size: 4 }), None);
    assert_eq!(map.insert(4, MessageWeights { weight: 40, size: 40 }), Some(MessageWeights { weight: 4, size: 4 }));
    assert_eq!(map.len(), 3);
    assert_eq!(map.entry(0).0, 3);
    assert_eq!(map.entry(1), (4, MessageWeights { weight: 40, size: 40 }));
    assert_eq!(map.entry(2).0, 5);
    assert_eq!(map.get(5), Some(MessageWeights { weight: 5, size: 5 }));
    assert_eq!(map.get(6), None);
    assert_eq!(map.begin(), 3);
    assert_eq!(map.end(), 5);
}
