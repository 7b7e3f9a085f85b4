use std::collections::VecDeque;
use std::ops::RangeInclusive;

use bridge_relays::race::{
    BasicStrategy, MessageNonce, NoncesRange, RaceState, SourceClientNonces, TargetClientNonces,
};
use bridge_relays::utils::HeaderId;

type TestMessagesProof = (RangeInclusive<MessageNonce>, Option<MessageNonce>);
type Strategy = BasicStrategy<RangeInclusive<MessageNonce>>;

fn header_id(number: u64) -> HeaderId {
    HeaderId(number, number)
}

fn source_nonces(new_nonces: RangeInclusive<MessageNonce>) -> SourceClientNonces<RangeInclusive<MessageNonce>> {
    SourceClientNonces { new_nonces, confirmed_nonce: None }
}

fn target_nonces(latest_nonce: MessageNonce) -> TargetClientNonces<()> {
    TargetClientNonces { latest_nonce, nonces_data: () }
}

fn new_state() -> RaceState<TestMessagesProof> {
    RaceState::default()
}

fn queue_of(strategy: &Strategy) -> Vec<(HeaderId, RangeInclusive<MessageNonce>)> {
    strategy.source_queue().iter().cloned().collect()
}

#[test]
fn range_inclusive_works_as_nonces_range() {
    let range = 20..=30;

    assert_eq!(NoncesRange::begin(&range), 20);
    assert_eq!(NoncesRange::end(&range), 30);
    assert_eq!(range.clone().greater_than(10), Some(20..=30));
    assert_eq!(range.clone().greater_than(19), Some(20..=30));
    assert_eq!(range.clone().greater_than(20), Some(21..=30));
    assert_eq!(range.clone().greater_than(25), Some(26..=30));
    assert_eq!(range.clone().greater_than(29), Some(30..=30));
    assert_eq!(range.greater_than(30), None);
}

#[test]
fn strategy_is_empty_works() {
    let mut strategy = Strategy::new();
    assert!(strategy.is_empty());
    strategy.source_nonces_updated(header_id(1), source_nonces(1..=1));
    assert!(!strategy.is_empty());
}

#[test]
fn best_at_source_is_never_lower_than_target_nonce() {
    let mut strategy = Strategy::new();
    assert_eq!(strategy.best_at_source(), None);
    strategy.source_nonces_updated(header_id(1), source_nonces(1..=5));
    assert_eq!(strategy.best_at_source(), None);
    strategy.best_target_nonces_updated(target_nonces(10), &mut new_state());
    assert_eq!(queue_of(&strategy), vec![]);
    assert_eq!(strategy.best_at_source(), Some(10));
}

#[test]
fn source_nonce_is_never_lower_than_known_target_nonce() {
    let mut strategy = Strategy::new();
    strategy.best_target_nonces_updated(target_nonces(10), &mut new_state());
    strategy.source_nonces_updated(header_id(1), source_nonces(1..=5));
    assert_eq!(queue_of(&strategy), vec![]);
}

#[test]
fn source_nonce_is_never_lower_than_latest_known_source_nonce() {
    let mut strategy = Strategy::new();
    strategy.source_nonces_updated(header_id(1), source_nonces(1..=5));
    strategy.source_nonces_updated(header_id(2), source_nonces(1..=3));
    strategy.source_nonces_updated(header_id(2), source_nonces(1..=5));
    assert_eq!(queue_of(&strategy), vec![(header_id(1), 1..=5)]);
}

#[test]
fn target_nonce_is_never_lower_than_latest_known_target_nonce() {
    let mut strategy = Strategy::new();
    assert_eq!(strategy.best_at_target(), None);
    strategy.best_target_nonces_updated(target_nonces(10), &mut new_state());
    assert_eq!(strategy.best_at_target(), Some(10));
    strategy.best_target_nonces_updated(target_nonces(5), &mut new_state());
    assert_eq!(strategy.best_at_target(), Some(10));
}

#[test]
fn updated_target_nonce_removes_queued_entries() {
    let mut strategy = Strategy::new();
    strategy.source_nonces_updated(header_id(1), source_nonces(1..=5));
    strategy.source_nonces_updated(header_id(2), source_nonces(6..=10));
    strategy.source_nonces_updated(header_id(3), source_nonces(11..=15));
    strategy.source_nonces_updated(header_id(4), source_nonces(16..=20));
    strategy.best_target_nonces_updated(target_nonces(15), &mut new_state());
    assert_eq!(queue_of(&strategy), vec![(header_id(4), 16..=20)]);
    strategy.best_target_nonces_updated(target_nonces(17), &mut new_state());
    assert_eq!(queue_of(&strategy), vec![(header_id(4), 18..=20)]);
}

#[test]
fn selected_nonces_are_dropped_on_target_nonce_update() {
    let mut state = new_state();
    let mut strategy = Strategy::new();
    state.nonces_to_submit = Some((header_id(1), 5..=10, (5..=10, None)));
    strategy.best_target_nonces_updated(target_nonces(7), &mut state);
    assert!(state.nonces_to_submit.is_some());
    strategy.best_target_nonces_updated(target_nonces(10), &mut state);
    assert!(state.nonces_to_submit.is_none());
}

#[test]
fn submitted_nonces_are_dropped_on_target_nonce_update() {
    let mut state = new_state();
    let mut strategy = Strategy::new();
    state.nonces_submitted = Some(5..=10);
    strategy.best_target_nonces_updated(target_nonces(7), &mut state);
    assert!(state.nonces_submitted.is_some());
    strategy.best_target_nonces_updated(target_nonces(10), &mut state);
    assert!(state.nonces_submitted.is_none());
}

#[test]
fn nothing_is_selected_if_something_is_already_selected() {
    let mut state = new_state();
    let mut strategy = Strategy::new();
    state.nonces_to_submit = Some((header_id(1), 1..=10, (1..=10, None)));
    strategy.best_target_nonces_updated(target_nonces(0), &mut state);
    strategy.source_nonces_updated(header_id(1), source_nonces(1..=10));
    assert_eq!(strategy.select_nonces_to_deliver(state.clone()), None);
}

#[test]
fn nothing_is_selected_if_something_is_already_submitted() {
    let mut state = new_state();
    let mut strategy = Strategy::new();
    state.nonces_submitted = Some(1..=10);
    strategy.best_target_nonces_updated(target_nonces(0), &mut state);
    strategy.source_nonces_updated(header_id(1), source_nonces(1..=10));
    assert_eq!(strategy.select_nonces_to_deliver(state.clone()), None);
}

#[test]
fn select_nonces_to_deliver_works() {
    let mut state = new_state();
    let mut strategy = Strategy::new();
    strategy.best_target_nonces_updated(target_nonces(0), &mut state);
    strategy.source_nonces_updated(header_id(1), source_nonces(1..=1));
    strategy.source_nonces_updated(header_id(2), source_nonces(2..=2));
    strategy.source_nonces_updated(header_id(3), source_nonces(3..=6));
    strategy.source_nonces_updated(header_id(5), source_nonces(7..=8));

    state.best_finalized_source_header_id_at_best_target = Some(header_id(4));
    assert_eq!(strategy.select_nonces_to_deliver(state.clone()), Some((1..=6, ())));
    strategy.best_target_nonces_updated(target_nonces(6), &mut state);
    assert_eq!(strategy.select_nonces_to_deliver(state.clone()), None);

    state.best_finalized_source_header_id_at_best_target = Some(header_id(5));
    assert_eq!(strategy.select_nonces_to_deliver(state.clone()), Some((7..=8, ())));
    strategy.best_target_nonces_updated(target_nonces(8), &mut state);
    assert_eq!(strategy.select_nonces_to_deliver(state.clone()), None);
}

#[test]
fn maximal_available_source_queue_index_works() {
    let mut state = new_state();
    let mut strategy = Strategy::new();
    strategy.best_target_nonces_updated(target_nonces(0), &mut state);
    strategy.source_nonces_updated(header_id(1), source_nonces(1..=3));
    strategy.source_nonces_updated(header_id(2), source_nonces(4..=6));
    strategy.source_nonces_updated(header_id(3), source_nonces(7..=9));

    state.best_finalized_source_header_id_at_best_target = Some(header_id(0));
    assert_eq!(strategy.maximal_available_source_queue_index(&state), None);

    state.best_finalized_source_header_id_at_best_target = Some(header_id(1));
    assert_eq!(strategy.maximal_available_source_queue_index(&state), Some(0));

    state.best_finalized_source_header_id_at_best_target = Some(header_id(2));
    assert_eq!(strategy.maximal_available_source_queue_index(&state), Some(1));

    state.best_finalized_source_header_id_at_best_target = Some(header_id(3));
    assert_eq!(strategy.maximal_available_source_queue_index(&state), Some(2));

    state.best_finalized_source_header_id_at_best_target = Some(header_id(4));
    assert_eq!(strategy.maximal_available_source_queue_index(&state), Some(2));
}

#[test]
fn remove_le_nonces_from_source_queue_works() {
    let mut state = new_state();
    let mut strategy = Strategy::new();
    strategy.best_target_nonces_updated(target_nonces(0), &mut state);
    strategy.source_nonces_updated(header_id(1), source_nonces(1..=3));
    strategy.source_nonces_updated(header_id(2), source_nonces(4..=6));
    strategy.source_nonces_updated(header_id(3), source_nonces(7..=9));

    fn source_queue_nonces(source_queue: &VecDeque<(HeaderId, RangeInclusive<MessageNonce>)>) -> Vec<MessageNonce> {
        source_queue.iter().flat_map(|(_, range)| range.clone()).collect()
    }

    strategy.remove_le_nonces_from_source_queue(1);
    assert_eq!(source_queue_nonces(strategy.source_queue()), vec![2, 3, 4, 5, 6, 7, 8, 9],);

    strategy.remove_le_nonces_from_source_queue(5);
    assert_eq!(source_queue_nonces(strategy.source_queue()), vec![6, 7, 8, 9]);

    strategy.remove_le_nonces_from_source_queue(9);
    assert_eq!(source_queue_nonces(strategy.source_queue()), Vec::<MessageNonce>::new());

    strategy.remove_le_nonces_from_source_queue(100);
    assert_eq!(source_queue_nonces(strategy.source_queue()), Vec::<MessageNonce>::new());
}

#[test]
fn required_source_header_at_target_is_the_last_queued_one() {
    let mut strategy = Strategy::new();
    assert_eq!(strategy.required_source_header_at_target(&header_id(0)), None);
    strategy.source_nonces_updated(header_id(1), source_nonces(1..=3));
    strategy.source_nonces_updated(header_id(5), source_nonces(4..=6));
    assert_eq!(strategy.required_source_header_at_target(&header_id(2)), Some(header_id(5)));
    assert_eq!(strategy.required_source_header_at_target(&header_id(5)), None);
}

#[test]
fn finalized_target_nonces_never_lower_the_best_target_nonce() {
    let mut state = new_state();
    let mut strategy = Strategy::new();
    strategy.source_nonces_updated(header_id(1), source_nonces(1..=5));
    strategy.finalized_target_nonces_updated(target_nonces(3), &mut state);
    assert_eq!(strategy.best_at_target(), Some(3));
    strategy.finalized_target_nonces_updated(target_nonces(2), &mut state);
    assert_eq!(strategy.best_at_target(), Some(3));
    // finalized nonces do not touch the queue
    assert_eq!(queue_of(&strategy), vec![(header_id(1), 1..=5)]);
    assert_eq!(strategy.best_at_source(), Some(5));
}
