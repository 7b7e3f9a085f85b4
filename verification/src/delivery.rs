//! Message delivery race: which queued messages one delivery transaction
//! carries from the source node to the target node.

use vstd::prelude::*;

use std::collections::VecDeque;
use std::ops::RangeInclusive;

use crate::race::{
    range_end, BasicStrategy, MessageNonce, NoncesRange, RaceState, SourceClientNonces, TargetClientNonces, Weight,
};
use crate::utils::HeaderId;

verus! {

/// Message weights.
#[derive(Debug, Clone, Copy, PartialEq, Eq, Structural)]
pub struct MessageWeights {
    /// Message dispatch weight.
    pub weight: Weight,
    /// Message size (number of bytes in encoded payload).
    pub size: usize,
}

/// The nonces of a sequence of entries increase.
pub open spec fn keys_increasing(entries: Seq<(MessageNonce, MessageWeights)>) -> bool {
    forall|i: int, j: int| 0 <= i < j < entries.len() ==> (#[trigger] entries[i]).0 < (#[trigger] entries[j]).0
}

/// Messages weights, by nonce, in the order of their nonces.
#[derive(Debug, PartialEq, Eq)]
pub struct MessageWeightsMap {
    entries: Vec<(MessageNonce, MessageWeights)>,
}

impl View for MessageWeightsMap {
    type V = Seq<(MessageNonce, MessageWeights)>;

    closed spec fn view(&self) -> Seq<(MessageNonce, MessageWeights)> {
        self.entries@
    }
}

impl MessageWeightsMap {
    /// Entries are kept in the order of their nonces.
    #[verifier::type_invariant]
    spec fn ordered(self) -> bool {
        keys_increasing(self.entries@)
    }

    /// Creates an empty map.
    pub fn new() -> (r: Self)
        ensures
            r@.len() == 0,
    {
        MessageWeightsMap { entries: Vec::new() }
    }

    /// Number of messages in the map.
    pub fn len(&self) -> (r: usize)
        ensures
            r == self@.len(),
    {
        self.entries.len()
    }

    /// Returns true if the map holds no message.
    pub fn is_empty(&self) -> (r: bool)
        ensures
            r == (self@.len() == 0),
    {
        self.entries.len() == 0
    }

    /// The nonce and the weights of the `index`-th message, in the order of nonces.
    pub fn entry(&self, index: usize) -> (r: (MessageNonce, MessageWeights))
        requires
            index < self@.len(),
        ensures
            r == self@[index as int],
            keys_increasing(self@),
    {
        proof {
            use_type_invariant(self);
        }
        self.entries[index]
    }

    /// Weights of the message with the given nonce.
    pub fn get(&self, nonce: MessageNonce) -> (r: Option<MessageWeights>)
        ensures
            r is None <==> (forall|i: int| 0 <= i < self@.len() ==> (#[trigger] self@[i]).0 != nonce),
            r matches Some(w) ==> exists|i: int| 0 <= i < self@.len() && #[trigger] self@[i] == (nonce, w),
    {
        let mut i: usize = 0;
        while i < self.entries.len()
            invariant
                i <= self.entries@.len(),
                forall|j: int| 0 <= j < i ==> (#[trigger] self.entries@[j]).0 != nonce,
            decreases self.entries@.len() - i,
        {
            if self.entries[i].0 == nonce {
                let w = self.entries[i].1;
                proof {
                    assert(self@[i as int] == (nonce, w));
                }
                return Some(w);
            }
            i = i + 1;
        }
        None
    }

    /// Inserts the weights of a message: they replace those of the same nonce,
    /// which are returned, or they take the place of the nonce among the others.
    pub fn insert(&mut self, nonce: MessageNonce, weights: MessageWeights) -> (r: Option<MessageWeights>)
        ensures
            match r {
                Some(prev) => exists|i: int|
                    0 <= i < old(self)@.len() && #[trigger] old(self)@[i] == (nonce, prev) && final(self)@ == old(
                        self,
                    )@.update(i, (nonce, weights)),
                None => exists|p: int|
                    0 <= p <= old(self)@.len() && final(self)@ == old(self)@.insert(p, (nonce, weights)) && (forall|
                        j: int,
                    | 0 <= j < p ==> (#[trigger] old(self)@[j]).0 < nonce) && (forall|j: int|
                        p <= j < old(self)@.len() ==> (#[trigger] old(self)@[j]).0 > nonce),
            },
    {
        proof {
            use_type_invariant(&*self);
        }
        let mut p: usize = 0;
        while p < self.entries.len() && self.entries[p].0 < nonce
            invariant
                p <= self.entries@.len(),
                forall|j: int| 0 <= j < p ==> (#[trigger] self.entries@[j]).0 < nonce,
            decreases self.entries@.len() - p,
        {
            p = p + 1;
        }
        let ghost before = self.entries@;
        let mut entries = copy_entries(&self.entries);
        if p < entries.len() && entries[p].0 == nonce {
            let prev = entries[p].1;
            entries.set(p, (nonce, weights));
            proof {
                assert(before[p as int] == (nonce, prev));
                assert(entries@ =~= before.update(p as int, (nonce, weights)));
                assert forall|a: int, b: int| 0 <= a < b < entries@.len() implies (#[trigger] entries@[a]).0
                    < (#[trigger] entries@[b]).0 by {
                    assert(before[a].0 < before[b].0);
                }
            }
            self.entries = entries;
            proof {
                assert(old(self)@[p as int] == (nonce, prev));
            }
            Some(prev)
        } else {
            proof {
                assert forall|j: int| p <= j < before.len() implies (#[trigger] before[j]).0 > nonce by {
                    assert(before[p as int].0 >= nonce);
                    if j > p {
                        assert(before[p as int].0 < before[j].0);
                    }
                }
            }
            entries.insert(p, (nonce, weights));
            proof {
                let e = entries@;
                assert forall|a: int, b: int| 0 <= a < b < e.len() implies (#[trigger] e[a]).0 < (#[trigger] e[b]).0 by {
                    if b < p {
                        assert(e[a] == before[a] && e[b] == before[b]);
                    } else if b == p {
                        assert(e[a] == before[a]);
                    } else if a < p {
                        assert(e[a] == before[a] && e[b] == before[b - 1]);
                    } else if a == p {
                        assert(e[b] == before[b - 1]);
                    } else {
                        assert(e[a] == before[a - 1] && e[b] == before[b - 1]);
                    }
                }
            }
            self.entries = entries;
            proof {
                assert(self@ == old(self)@.insert(p as int, (nonce, weights)));
                assert(forall|j: int| 0 <= j < p ==> (#[trigger] old(self)@[j]).0 < nonce);
                assert(forall|j: int| p <= j < old(self)@.len() ==> (#[trigger] old(self)@[j]).0 > nonce);
            }
            None
        }
    }
}

/// A copy of the entries.
fn copy_entries(entries: &Vec<(MessageNonce, MessageWeights)>) -> (r: Vec<(MessageNonce, MessageWeights)>)
    ensures
        r@ == entries@,
{
    let mut copy: Vec<(MessageNonce, MessageWeights)> = Vec::new();
    let mut i: usize = 0;
    while i < entries.len()
        invariant
            i <= entries@.len(),
            copy@ == entries@.take(i as int),
        decreases entries@.len() - i,
    {
        copy.push(entries[i]);
        i = i + 1;
        proof {
            assert(copy@ =~= entries@.take(i as int));
        }
    }
    proof {
        assert(copy@ =~= entries@);
    }
    copy
}

impl Clone for MessageWeightsMap {
    fn clone(&self) -> (r: Self)
        ensures
            r@ == self@,
    {
        proof {
            use_type_invariant(self);
        }
        MessageWeightsMap { entries: copy_entries(&self.entries) }
    }
}

impl NoncesRange for MessageWeightsMap {
    open spec fn spec_begin(&self) -> MessageNonce {
        if self@.len() > 0 {
            self@[0].0
        } else {
            0
        }
    }

    open spec fn spec_end(&self) -> MessageNonce {
        if self@.len() > 0 {
            self@.last().0
        } else {
            0
        }
    }

    open spec fn spec_part_above(&self, nonce: MessageNonce, part: Self) -> bool {
        let k = self@.len() - part@.len();
        &&& part@.len() <= self@.len()
        &&& part@ == self@.skip(k)
        &&& forall|j: int| 0 <= j < k ==> (#[trigger] self@[j]).0 <= nonce
        &&& part@.len() > 0 ==> part@[0].0 > nonce
    }

    fn begin(&self) -> (r: MessageNonce) {
        if self.entries.len() > 0 {
            self.entries[0].0
        } else {
            0
        }
    }

    fn end(&self) -> (r: MessageNonce) {
        let len = self.entries.len();
        if len > 0 {
            self.entries[len - 1].0
        } else {
            0
        }
    }

    fn greater_than(self, nonce: MessageNonce) -> (r: Option<Self>) {
        proof {
            use_type_invariant(&self);
        }
        let mut k: usize = 0;
        while k < self.entries.len() && self.entries[k].0 <= nonce
            invariant
                k <= self.entries@.len(),
                forall|j: int| 0 <= j < k ==> (#[trigger] self.entries@[j]).0 <= nonce,
            decreases self.entries@.len() - k,
        {
            k = k + 1;
        }
        let mut entries = self.entries;
        let ghost before = entries@;
        let gte = entries.split_off(k);
        if gte.len() == 0 {
            proof {
                if before.len() > 0 {
                    assert(before.last().0 <= nonce);
                }
            }
            None
        } else {
            proof {
                assert(gte@ =~= before.skip(k as int));
                assert(before[k as int].0 > nonce);
                assert forall|a: int, b: int| 0 <= a < b < gte@.len() implies (#[trigger] gte@[a]).0
                    < (#[trigger] gte@[b]).0 by {
                    assert(gte@[a] == before[k + a] && gte@[b] == before[k + b]);
                }
                if k > 0 {
                    assert(before[0].0 < before[k as int].0);
                }
            }
            Some(MessageWeightsMap { entries: gte })
        }
    }
}

/// Message delivery race parameters.
#[derive(Debug, Clone)]
pub struct MessageDeliveryParams {
    /// Maximal number of unconfirmed relayer entries at the inbound lane. If there's that number of entries
    /// in the `InboundLaneData::relayers` set, all new messages will be rejected until reward payment will
    /// be proved (by including outbound lane state to the message delivery transaction).
    pub max_unrewarded_relayer_entries_at_target: MessageNonce,
    /// Message delivery race will stop delivering messages if there are `max_unconfirmed_nonces_at_target`
    /// unconfirmed nonces on the target node. The race would continue once they're confirmed by the
    /// receiving race.
    pub max_unconfirmed_nonces_at_target: MessageNonce,
    /// Maximal number of relayed messages in single delivery transaction.
    pub max_messages_in_single_batch: MessageNonce,
    /// Maximal cumulative dispatch weight of relayed messages in single delivery transaction.
    pub max_messages_weight_in_single_batch: Weight,
    /// Maximal cumulative size of relayed messages in single delivery transaction.
    pub max_messages_size_in_single_batch: usize,
}

/// Message delivery race proof parameters.
#[derive(Debug, Clone, Copy, PartialEq, Eq, Structural)]
pub struct MessageProofParameters {
    /// Include outbound lane state proof?
    pub outbound_state_proof_required: bool,
    /// Cumulative dispatch weight of messages that we're building proof for.
    pub dispatch_weight: Weight,
}

/// Unrewarded relayers state at the inbound lane of the target node.
#[derive(Debug, Clone, Copy, PartialEq, Eq, Structural)]
pub struct UnrewardedRelayersState {
    /// Number of entries in the unrewarded relayers set.
    pub unrewarded_relayer_entries: MessageNonce,
    /// Number of messages in the oldest entry of the set.
    pub messages_in_oldest_entry: MessageNonce,
    /// Total number of messages in the set.
    pub total_messages: MessageNonce,
}

/// Additional nonces data from the target client used by message delivery race.
#[derive(Debug, Clone, Copy, PartialEq, Eq, Structural)]
pub struct DeliveryRaceTargetNoncesData {
    /// Latest nonce that we know: (1) has been delivered to us (2) has been confirmed
    /// back to the source node (by confirmations race) and (3) relayer has received
    /// reward for (and this has been confirmed by the message delivery race).
    pub confirmed_nonce: MessageNonce,
    /// State of the unrewarded relayers set at the target node.
    pub unrewarded_relayers: UnrewardedRelayersState,
}

/// Number of the leading entries of `seen` (from index `i` on) that have been
/// seen at headers up to `best`.
pub open spec fn seen_up_to(seen: Seq<(HeaderId, MessageNonce)>, best: u64, i: nat) -> nat
    decreases seen.len() - i,
{
    if i < seen.len() && (seen[i as int].0).0 <= best {
        seen_up_to(seen, best, i + 1)
    } else {
        i
    }
}

/// The latest confirmed nonce at the source node that has been seen at a
/// header up to `best` (the run of such entries at the front of `seen` is
/// taken), if any.
pub open spec fn confirmed_nonce_at(seen: Seq<(HeaderId, MessageNonce)>, best: u64) -> Option<MessageNonce> {
    let k = seen_up_to(seen, best, 0);
    if k == 0 {
        None
    } else {
        Some(seen[k - 1].1)
    }
}

/// Whether new messages may be delivered and how many of them: `None` if the
/// confirmed nonce at source or the nonces at target are unknown, if too many
/// delivered messages are still unconfirmed at the target node, or if the
/// unrewarded relayers set is full and the rewards that can be proved do not
/// free its oldest entry. Otherwise: whether the outbound lane state has to be
/// proved, and the number of messages that may be delivered.
pub open spec fn delivery_allowance(
    confirmed_at_source: Option<MessageNonce>,
    target_nonces: Option<TargetClientNonces<DeliveryRaceTargetNoncesData>>,
    max_unrewarded_relayer_entries: MessageNonce,
    max_unconfirmed_nonces: MessageNonce,
    max_messages_in_batch: MessageNonce,
) -> Option<(bool, MessageNonce)> {
    match (confirmed_at_source, target_nonces) {
        (Some(source_confirmed), Some(target)) => {
            let received = target.latest_nonce;
            let target_confirmed = target.nonces_data.confirmed_nonce;
            let relayers = target.nonces_data.unrewarded_relayers;
            let proved_rewards = if source_confirmed >= target_confirmed {
                source_confirmed - target_confirmed
            } else {
                0
            };
            if received >= source_confirmed && received - source_confirmed >= max_unconfirmed_nonces {
                None
            } else if relayers.unrewarded_relayer_entries >= max_unrewarded_relayer_entries && proved_rewards
                < relayers.messages_in_oldest_entry {
                None
            } else {
                let outbound = target_confirmed < source_confirmed;
                let future_confirmed = if outbound {
                    source_confirmed
                } else {
                    target_confirmed
                };
                let max_nonces = if received >= future_confirmed && max_unconfirmed_nonces >= received
                    - future_confirmed {
                    (max_unconfirmed_nonces - (received - future_confirmed)) as u64
                } else {
                    0
                };
                Some(
                    (
                        outbound,
                        if max_nonces < max_messages_in_batch {
                            max_nonces
                        } else {
                            max_messages_in_batch
                        },
                    ),
                )
            }
        },
        _ => None,
    }
}

/// Cumulative weight once a message of the given weight joins the batch: it
/// must not go above the maximum, except for the first message of the batch,
/// whose weight saturates.
pub open spec fn added_weight(selected: Weight, weight: Weight, max: Weight, count: nat) -> Option<Weight> {
    if selected + weight <= max {
        Some((selected + weight) as u64)
    } else if count == 0 {
        Some(
            if selected + weight <= u64::MAX {
                (selected + weight) as u64
            } else {
                u64::MAX
            },
        )
    } else {
        None
    }
}

/// Cumulative size once a message of the given size joins the batch (see
/// `added_weight`).
pub open spec fn added_size(selected: usize, size: usize, max: usize, count: nat) -> Option<usize> {
    if selected + size <= max {
        Some((selected + size) as usize)
    } else if count == 0 {
        Some(
            if selected + size <= usize::MAX {
                (selected + size) as usize
            } else {
                usize::MAX
            },
        )
    } else {
        None
    }
}

/// Number of messages, from the front of `messages`, that one delivery
/// transaction carries, and their cumulative weight: messages join in order
/// while the cumulative weight and size stay within their maximums (see
/// `added_weight`) and there are at most `max_count` of them. `i` messages of
/// `weight` and `size` have joined already.
pub open spec fn batch(
    messages: Seq<(MessageNonce, MessageWeights)>,
    max_weight: Weight,
    max_size: usize,
    max_count: MessageNonce,
    i: nat,
    weight: Weight,
    size: usize,
) -> (nat, Weight)
    decreases messages.len() - i,
{
    if i < messages.len() && i + 1 <= max_count {
        match (
            added_weight(weight, messages[i as int].1.weight, max_weight, i),
            added_size(size, messages[i as int].1.size, max_size, i),
        ) {
            (Some(w), Some(s)) => batch(messages, max_weight, max_size, max_count, i + 1, w, s),
            _ => (i, weight),
        }
    } else {
        (i, weight)
    }
}

/// Messages of the queued ranges, in order.
pub open spec fn queued_messages(queue: Seq<(HeaderId, MessageWeightsMap)>) -> Seq<(MessageNonce, MessageWeights)>
    decreases queue.len(),
{
    if queue.len() == 0 {
        seq![]
    } else {
        queued_messages(queue.drop_last()) + queue.last().1@
    }
}

/// Messages delivery strategy.
#[derive(Debug)]
pub struct MessageDeliveryStrategy {
    /// Maximal unrewarded relayer entries at target client.
    pub max_unrewarded_relayer_entries_at_target: MessageNonce,
    /// Maximal unconfirmed nonces at target client.
    pub max_unconfirmed_nonces_at_target: MessageNonce,
    /// Maximal number of messages in the single delivery transaction.
    pub max_messages_in_single_batch: MessageNonce,
    /// Maximal cumulative messages weight in the single delivery transaction.
    pub max_messages_weight_in_single_batch: Weight,
    /// Maximal messages size in the single delivery transaction.
    pub max_messages_size_in_single_batch: usize,
    /// Latest confirmed nonces at the source client + the header id where we have first met this nonce.
    pub latest_confirmed_nonces_at_source: VecDeque<(HeaderId, MessageNonce)>,
    /// Target nonces from the source client.
    pub target_nonces: Option<TargetClientNonces<DeliveryRaceTargetNoncesData>>,
    /// Basic delivery strategy.
    pub strategy: BasicStrategy<MessageWeightsMap>,
}

impl MessageDeliveryStrategy {
    /// Creates the strategy of a delivery race with the given parameters.
    pub fn new(params: &MessageDeliveryParams) -> (r: Self)
        ensures
            r.max_unrewarded_relayer_entries_at_target == params.max_unrewarded_relayer_entries_at_target,
            r.max_unconfirmed_nonces_at_target == params.max_unconfirmed_nonces_at_target,
            r.max_messages_in_single_batch == params.max_messages_in_single_batch,
            r.max_messages_weight_in_single_batch == params.max_messages_weight_in_single_batch,
            r.max_messages_size_in_single_batch == params.max_messages_size_in_single_batch,
            r.latest_confirmed_nonces_at_source@.len() == 0,
            r.target_nonces is None,
            r.strategy.wf(),
            r.strategy.queue_view().len() == 0,
            r.strategy.best_target_view() is None,
    {
        MessageDeliveryStrategy {
            max_unrewarded_relayer_entries_at_target: params.max_unrewarded_relayer_entries_at_target,
            max_unconfirmed_nonces_at_target: params.max_unconfirmed_nonces_at_target,
            max_messages_in_single_batch: params.max_messages_in_single_batch,
            max_messages_weight_in_single_batch: params.max_messages_weight_in_single_batch,
            max_messages_size_in_single_batch: params.max_messages_size_in_single_batch,
            latest_confirmed_nonces_at_source: VecDeque::new(),
            target_nonces: None,
            strategy: BasicStrategy::new(),
        }
    }

    /// Should return true if nothing has to be synced.
    pub fn is_empty(&self) -> (r: bool)
        ensures
            r == (self.strategy.queue_view().len() == 0),
    {
        self.strategy.is_empty()
    }

    /// Best nonce at source side (see `BasicStrategy::best_at_source`).
    pub fn best_at_source(&self) -> (r: Option<MessageNonce>)
        ensures
            r == crate::race::best_at_source_spec(self.strategy.queue_view(), self.strategy.best_target_view()),
    {
        self.strategy.best_at_source()
    }

    /// Best nonce at target side.
    pub fn best_at_target(&self) -> (r: Option<MessageNonce>)
        ensures
            r == self.strategy.best_target_view(),
    {
        self.strategy.best_at_target()
    }

    /// Called when nonces are updated at source node of the race: a new
    /// confirmed nonce is remembered with the block at which it has been seen,
    /// and the new nonces are queued (see `BasicStrategy::source_nonces_updated`).
    pub fn source_nonces_updated(&mut self, at_block: HeaderId, nonces: SourceClientNonces<MessageWeightsMap>)
        requires
            old(self).strategy.wf(),
        ensures
            final(self).strategy.wf(),
            final(self).latest_confirmed_nonces_at_source@ == match nonces.confirmed_nonce {
                Some(confirmed) => if old(self).latest_confirmed_nonces_at_source@.len() == 0 || old(
                    self,
                ).latest_confirmed_nonces_at_source@.last().1 != confirmed {
                    old(self).latest_confirmed_nonces_at_source@.push((at_block, confirmed))
                } else {
                    old(self).latest_confirmed_nonces_at_source@
                },
                None => old(self).latest_confirmed_nonces_at_source@,
            },
            final(self).target_nonces == old(self).target_nonces,
            final(self).strategy.best_target_view() == old(self).strategy.best_target_view(),
            ({
                let best = crate::race::best_known_nonce(
                    old(self).strategy.queue_view(),
                    old(self).strategy.best_target_view(),
                );
                if nonces.new_nonces.spec_end() <= best {
                    final(self).strategy.queue_view() == old(self).strategy.queue_view()
                } else {
                    let q = final(self).strategy.queue_view();
                    &&& q.drop_last() == old(self).strategy.queue_view()
                    &&& q.last().0 == at_block
                    &&& nonces.new_nonces.spec_part_above(best, q.last().1)
                }
            }),
            final(self).max_unrewarded_relayer_entries_at_target == old(self).max_unrewarded_relayer_entries_at_target,
            final(self).max_unconfirmed_nonces_at_target == old(self).max_unconfirmed_nonces_at_target,
            final(self).max_messages_in_single_batch == old(self).max_messages_in_single_batch,
            final(self).max_messages_weight_in_single_batch == old(self).max_messages_weight_in_single_batch,
            final(self).max_messages_size_in_single_batch == old(self).max_messages_size_in_single_batch,
    {
        match nonces.confirmed_nonce {
            Some(confirmed_nonce) => {
                let len = self.latest_confirmed_nonces_at_source.len();
                let is_confirmed_nonce_updated = len == 0 || self.latest_confirmed_nonces_at_source[len
                    - 1].1 != confirmed_nonce;
                if is_confirmed_nonce_updated {
                    self.latest_confirmed_nonces_at_source.push_back((at_block, confirmed_nonce));
                }
            },
            None => {},
        }
        self.strategy.source_nonces_updated(at_block, nonces);
    }

    /// Called when best nonces are updated at target node of the race: the
    /// target nonces are remembered (their latest nonce never goes down), and
    /// the basic strategy is told (see `BasicStrategy::best_target_nonces_updated`).
    pub fn best_target_nonces_updated<P>(
        &mut self,
        nonces: TargetClientNonces<DeliveryRaceTargetNoncesData>,
        race_state: &mut RaceState<P>,
    )
        requires
            old(self).strategy.wf(),
        ensures
            final(self).strategy.wf(),
            final(self).target_nonces == Some(
                TargetClientNonces {
                    latest_nonce: match old(self).target_nonces {
                        Some(known) => if known.latest_nonce > nonces.latest_nonce {
                            known.latest_nonce
                        } else {
                            nonces.latest_nonce
                        },
                        None => nonces.latest_nonce,
                    },
                    nonces_data: nonces.nonces_data,
                },
            ),
            final(self).latest_confirmed_nonces_at_source == old(self).latest_confirmed_nonces_at_source,
            ({
                let nonce = nonces.latest_nonce;
                if old(self).strategy.best_target_view() matches Some(best) && nonce < best {
                    &&& final(self).strategy == old(self).strategy
                    &&& *final(race_state) == *old(race_state)
                } else {
                    &&& final(self).strategy.best_target_view() == Some(nonce)
                    &&& crate::race::queue_front_above(
                        old(self).strategy.queue_view(),
                        nonce,
                        final(self).strategy.queue_view(),
                    )
                    &&& final(race_state).nonces_to_submit == if old(race_state).nonces_to_submit matches Some(
                        to_submit,
                    ) && to_submit.1@.end <= nonce {
                        None
                    } else {
                        old(race_state).nonces_to_submit
                    }
                    &&& final(race_state).nonces_submitted == if old(race_state).nonces_submitted matches Some(
                        submitted,
                    ) && submitted@.end <= nonce {
                        None
                    } else {
                        old(race_state).nonces_submitted
                    }
                    &&& final(race_state).best_finalized_source_header_id_at_best_target == old(
                        race_state,
                    ).best_finalized_source_header_id_at_best_target
                }
            }),
            final(self).max_unrewarded_relayer_entries_at_target == old(self).max_unrewarded_relayer_entries_at_target,
            final(self).max_unconfirmed_nonces_at_target == old(self).max_unconfirmed_nonces_at_target,
            final(self).max_messages_in_single_batch == old(self).max_messages_in_single_batch,
            final(self).max_messages_weight_in_single_batch == old(self).max_messages_weight_in_single_batch,
            final(self).max_messages_size_in_single_batch == old(self).max_messages_size_in_single_batch,
    {
        let mut target_nonces = match self.target_nonces.take() {
            Some(known) => known,
            None => TargetClientNonces { latest_nonce: nonces.latest_nonce, nonces_data: nonces.nonces_data },
        };
        target_nonces.nonces_data = nonces.nonces_data;
        if nonces.latest_nonce > target_nonces.latest_nonce {
            target_nonces.latest_nonce = nonces.latest_nonce;
        }
        self.target_nonces = Some(target_nonces);
        self.strategy.best_target_nonces_updated(
            TargetClientNonces { latest_nonce: nonces.latest_nonce, nonces_data: () },
            race_state,
        );
    }

    /// Called when finalized nonces are updated at target node of the race:
    /// confirmed nonces seen at headers below the best finalized source header
    /// at target are forgotten, the latest target nonce never goes down, and
    /// the basic strategy is told (see `BasicStrategy::finalized_target_nonces_updated`).
    pub fn finalized_target_nonces_updated<P>(
        &mut self,
        nonces: TargetClientNonces<DeliveryRaceTargetNoncesData>,
        race_state: &mut RaceState<P>,
    )
        requires
            old(self).strategy.wf(),
        ensures
            final(self).strategy.wf(),
            ({
                let before = old(self).latest_confirmed_nonces_at_source@;
                let after = final(self).latest_confirmed_nonces_at_source@;
                let k = before.len() - after.len();
                match old(race_state).best_finalized_source_header_id_at_best_target {
                    Some(best) => {
                        &&& after.len() <= before.len()
                        &&& after == before.skip(k)
                        &&& forall|j: int| 0 <= j < k ==> (#[trigger] before[j]).0.0 < best.0
                        &&& after.len() > 0 ==> (after[0].0).0 >= best.0
                    },
                    None => after == before,
                }
            }),
            final(self).target_nonces == match old(self).target_nonces {
                Some(known) => Some(
                    TargetClientNonces {
                        latest_nonce: if known.latest_nonce > nonces.latest_nonce {
                            known.latest_nonce
                        } else {
                            nonces.latest_nonce
                        },
                        nonces_data: known.nonces_data,
                    },
                ),
                None => None,
            },
            final(self).strategy.queue_view() == old(self).strategy.queue_view(),
            final(self).strategy.best_target_view() == Some(
                match old(self).strategy.best_target_view() {
                    Some(best) => if best > nonces.latest_nonce {
                        best
                    } else {
                        nonces.latest_nonce
                    },
                    None => nonces.latest_nonce,
                },
            ),
            *final(race_state) == *old(race_state),
            final(self).max_unrewarded_relayer_entries_at_target == old(self).max_unrewarded_relayer_entries_at_target,
            final(self).max_unconfirmed_nonces_at_target == old(self).max_unconfirmed_nonces_at_target,
            final(self).max_messages_in_single_batch == old(self).max_messages_in_single_batch,
            final(self).max_messages_weight_in_single_batch == old(self).max_messages_weight_in_single_batch,
            final(self).max_messages_size_in_single_batch == old(self).max_messages_size_in_single_batch,
    {
        match race_state.best_finalized_source_header_id_at_best_target {
            Some(best) => {
                let oldest_header_number_to_keep = best.0;
                let ghost before = self.latest_confirmed_nonces_at_source@;
                while self.latest_confirmed_nonces_at_source.len() > 0
                    && self.latest_confirmed_nonces_at_source[0].0.0 < oldest_header_number_to_keep
                    invariant
                        self.strategy == old(self).strategy,
                        self.target_nonces == old(self).target_nonces,
                        self.max_unrewarded_relayer_entries_at_target == old(self).max_unrewarded_relayer_entries_at_target,
                        self.max_unconfirmed_nonces_at_target == old(self).max_unconfirmed_nonces_at_target,
                        self.max_messages_in_single_batch == old(self).max_messages_in_single_batch,
                        self.max_messages_weight_in_single_batch == old(self).max_messages_weight_in_single_batch,
                        self.max_messages_size_in_single_batch == old(self).max_messages_size_in_single_batch,
                        before == old(self).latest_confirmed_nonces_at_source@,
                        self.latest_confirmed_nonces_at_source@.len() <= before.len(),
                        self.latest_confirmed_nonces_at_source@ == before.skip(
                            before.len() - self.latest_confirmed_nonces_at_source@.len(),
                        ),
                        forall|j: int|
                            0 <= j < before.len() - self.latest_confirmed_nonces_at_source@.len() ==> (
                            #[trigger] before[j]).0.0 < oldest_header_number_to_keep,
                    decreases self.latest_confirmed_nonces_at_source@.len(),
                {
                    let ghost k = before.len() - self.latest_confirmed_nonces_at_source@.len();
                    proof {
                        assert(self.latest_confirmed_nonces_at_source@[0] == before[k]);
                    }
                    self.latest_confirmed_nonces_at_source.pop_front();
                    proof {
                        assert(self.latest_confirmed_nonces_at_source@ =~= before.skip(
                            before.len() - self.latest_confirmed_nonces_at_source@.len(),
                        ));
                    }
                }
            },
            None => {},
        }
        match &mut self.target_nonces {
            Some(target_nonces) => {
                if nonces.latest_nonce > target_nonces.latest_nonce {
                    target_nonces.latest_nonce = nonces.latest_nonce;
                }
            },
            None => {},
        }
        self.strategy.finalized_target_nonces_updated(
            TargetClientNonces { latest_nonce: nonces.latest_nonce, nonces_data: () },
            race_state,
        );
    }

    /// Should return `Some(nonces)` if we need to deliver proof of `nonces` (and associated
    /// data) from source to target node.
    ///
    /// Nothing is delivered unless `delivery_allowance` allows it at the best
    /// finalized source header known to the target node, and some queued ranges
    /// may be proved there (see `maximal_available_index`). Then the messages of
    /// those ranges join the batch in order (see `batch`); the selected nonces
    /// run from the first queued nonce to the last message in the batch, and
    /// leave the queue.
    pub fn select_nonces_to_deliver<P>(&mut self, race_state: &RaceState<P>) -> (r: Option<
        (RangeInclusive<MessageNonce>, MessageProofParameters),
    >)
        requires
            old(self).strategy.wf(),
        ensures
            final(self).strategy.wf(),
            final(self).strategy.best_target_view() == old(self).strategy.best_target_view(),
            r matches Some((range, _)) ==> (final(self).strategy.queue_view().len() > 0
                ==> final(self).strategy.queue_view()[0].1.spec_begin() > range@.end),
            final(self).latest_confirmed_nonces_at_source == old(self).latest_confirmed_nonces_at_source,
            final(self).target_nonces == old(self).target_nonces,
            final(self).max_unrewarded_relayer_entries_at_target == old(self).max_unrewarded_relayer_entries_at_target,
            final(self).max_unconfirmed_nonces_at_target == old(self).max_unconfirmed_nonces_at_target,
            final(self).max_messages_in_single_batch == old(self).max_messages_in_single_batch,
            final(self).max_messages_weight_in_single_batch == old(self).max_messages_weight_in_single_batch,
            final(self).max_messages_size_in_single_batch == old(self).max_messages_size_in_single_batch,
            ({
                let q = old(self).strategy.queue_view();
                let best_target = old(self).strategy.best_target_view();
                let allowance = match race_state.best_finalized_source_header_id_at_best_target {
                    Some(best) => delivery_allowance(
                        confirmed_nonce_at(old(self).latest_confirmed_nonces_at_source@, best.0),
                        old(self).target_nonces,
                        old(self).max_unrewarded_relayer_entries_at_target,
                        old(self).max_unconfirmed_nonces_at_target,
                        old(self).max_messages_in_single_batch,
                    ),
                    None => None,
                };
                match allowance {
                    None => r is None && final(self).strategy.queue_view() == q,
                    Some((outbound, max_nonces)) => if crate::race::maximal_available_index(
                        q,
                        best_target,
                        *race_state,
                        None,
                    ) {
                        r is None && final(self).strategy.queue_view() == q
                    } else {
                        exists|i: usize|
                            #[trigger] crate::race::maximal_available_index(q, best_target, *race_state, Some(i))
                                && {
                                let messages = queued_messages(q.take(i + 1));
                                let (n, weight) = batch(
                                    messages,
                                    old(self).max_messages_weight_in_single_batch,
                                    old(self).max_messages_size_in_single_batch,
                                    max_nonces,
                                    0,
                                    0,
                                    0,
                                );
                                if n == 0 {
                                    r is None && final(self).strategy.queue_view() == q
                                } else {
                                    &&& r matches Some((range, params))
                                    &&& range@.start == q[0].1.spec_begin()
                                    &&& range@.end == messages[n - 1].0
                                    &&& !range@.exhausted
                                    &&& params == MessageProofParameters {
                                        outbound_state_proof_required: outbound,
                                        dispatch_weight: weight,
                                    }
                                    &&& crate::race::queue_above(
                                        q,
                                        messages[n - 1].0,
                                        final(self).strategy.queue_view(),
                                    )
                                }
                            }
                    },
                }
            }),
    {
        let best = match race_state.best_finalized_source_header_id_at_best_target {
            Some(best) => best,
            None => return None,
        };
        let confirmed_at_source = confirmed_nonce_seen_up_to(&self.latest_confirmed_nonces_at_source, best.0);
        let (outbound_state_proof_required, max_nonces) = match allowance(
            confirmed_at_source,
            &self.target_nonces,
            self.max_unrewarded_relayer_entries_at_target,
            self.max_unconfirmed_nonces_at_target,
            self.max_messages_in_single_batch,
        ) {
            Some(allowed) => allowed,
            None => return None,
        };
        let maximal_source_queue_index = match self.strategy.maximal_available_source_queue_index(race_state) {
            Some(index) => index,
            None => return None,
        };
        let messages = messages_up_to(self.strategy.source_queue(), maximal_source_queue_index);
        let (selected_count, selected_weight) = select_batch(
            &messages,
            self.max_messages_weight_in_single_batch,
            self.max_messages_size_in_single_batch,
            max_nonces,
        );
        if selected_count == 0 {
            return None;
        }
        let range_begin = self.strategy.source_queue()[0].1.begin();
        let range_end = messages[selected_count - 1].0;
        self.strategy.remove_le_nonces_from_source_queue(range_end);
        Some(
            (
                RangeInclusive::new(range_begin, range_end),
                MessageProofParameters {
                    outbound_state_proof_required,
                    dispatch_weight: selected_weight,
                },
            ),
        )
    }
}

/// The latest confirmed nonce at the source node seen at a header up to `best`
/// (see `confirmed_nonce_at`).
fn confirmed_nonce_seen_up_to(seen: &VecDeque<(HeaderId, MessageNonce)>, best: u64) -> (r: Option<MessageNonce>)
    ensures
        r == confirmed_nonce_at(seen@, best),
{
    let mut k: usize = 0;
    while k < seen.len() && seen[k].0.0 <= best
        invariant
            k <= seen@.len(),
            seen_up_to(seen@, best, 0) == seen_up_to(seen@, best, k as nat),
        decreases seen@.len() - k,
    {
        k = k + 1;
    }
    if k == 0 {
        None
    } else {
        Some(seen[k - 1].1)
    }
}

/// `delivery_allowance`, computed.
fn allowance(
    confirmed_at_source: Option<MessageNonce>,
    target_nonces: &Option<TargetClientNonces<DeliveryRaceTargetNoncesData>>,
    max_unrewarded_relayer_entries: MessageNonce,
    max_unconfirmed_nonces: MessageNonce,
    max_messages_in_batch: MessageNonce,
) -> (r: Option<(bool, MessageNonce)>)
    ensures
        r == delivery_allowance(
            confirmed_at_source,
            *target_nonces,
            max_unrewarded_relayer_entries,
            max_unconfirmed_nonces,
            max_messages_in_batch,
        ),
{
    let source_confirmed = match confirmed_at_source {
        Some(nonce) => nonce,
        None => return None,
    };
    let target = match target_nonces {
        Some(target) => target,
        None => return None,
    };
    let received = target.latest_nonce;
    let target_confirmed = target.nonces_data.confirmed_nonce;
    match received.checked_sub(source_confirmed) {
        Some(confirmations_missing) => {
            if confirmations_missing >= max_unconfirmed_nonces {
                return None;
            }
        },
        None => {},
    }
    let outbound_state_proof_required = target_confirmed < source_confirmed;
    if target.nonces_data.unrewarded_relayers.unrewarded_relayer_entries >= max_unrewarded_relayer_entries {
        let number_of_rewards_being_proved = source_confirmed.saturating_sub(target_confirmed);
        if number_of_rewards_being_proved < target.nonces_data.unrewarded_relayers.messages_in_oldest_entry {
            return None;
        }
    }
    let future_confirmed_nonce_at_target = if outbound_state_proof_required {
        source_confirmed
    } else {
        target_confirmed
    };
    let max_nonces = match received.checked_sub(future_confirmed_nonce_at_target) {
        Some(diff) => match max_unconfirmed_nonces.checked_sub(diff) {
            Some(max_nonces) => max_nonces,
            None => 0,
        },
        None => 0,
    };
    let max_nonces = if max_nonces < max_messages_in_batch {
        max_nonces
    } else {
        max_messages_in_batch
    };
    Some((outbound_state_proof_required, max_nonces))
}

/// The messages of the queued ranges up to the one at `index`, in order.
fn messages_up_to(queue: &VecDeque<(HeaderId, MessageWeightsMap)>, index: usize) -> (r: Vec<
    (MessageNonce, MessageWeights),
>)
    requires
        index < queue@.len(),
    ensures
        r@ == queued_messages(queue@.take(index + 1)),
{
    let mut messages: Vec<(MessageNonce, MessageWeights)> = Vec::new();
    let len = queue.len();
    let mut e: usize = 0;
    proof {
        assert(queue@.take(0) =~= Seq::<(HeaderId, MessageWeightsMap)>::empty());
    }
    while e <= index
        invariant
            index < len,
            len == queue@.len(),
            e <= index + 1,
            messages@ == queued_messages(queue@.take(e as int)),
        decreases index + 1 - e,
    {
        let map = &queue[e].1;
        let ghost start = messages@;
        let mut m: usize = 0;
        while m < map.len()
            invariant
                m <= map@.len(),
                messages@ == start + map@.take(m as int),
            decreases map@.len() - m,
        {
            messages.push(map.entry(m));
            m = m + 1;
            proof {
                assert(messages@ =~= start + map@.take(m as int));
            }
        }
        proof {
            let taken = queue@.take(e + 1);
            assert(taken.drop_last() =~= queue@.take(e as int));
            assert(taken.last() == queue@[e as int]);
            assert(map@.take(m as int) =~= map@);
        }
        e = e + 1;
    }
    messages
}

/// The messages, from the front of `messages`, that one delivery transaction
/// carries and their cumulative weight (see `batch`).
fn select_batch(
    messages: &Vec<(MessageNonce, MessageWeights)>,
    max_weight: Weight,
    max_size: usize,
    max_count: MessageNonce,
) -> (r: (usize, Weight))
    ensures
        (r.0 as nat, r.1) == batch(messages@, max_weight, max_size, max_count, 0, 0, 0),
        r.0 <= messages@.len(),
{
    let mut selected_weight: Weight = 0;
    let mut selected_size: usize = 0;
    let mut selected_count: usize = 0;
    let mut done = false;
    while !done && selected_count < messages.len()
        invariant
            selected_count <= messages@.len(),
            !done ==> batch(messages@, max_weight, max_size, max_count, 0, 0, 0) == batch(
                messages@,
                max_weight,
                max_size,
                max_count,
                selected_count as nat,
                selected_weight,
                selected_size,
            ),
            done ==> batch(messages@, max_weight, max_size, max_count, 0, 0, 0) == (
                selected_count as nat,
                selected_weight,
            ),
        decreases messages@.len() - selected_count, (if done {
            0int
        } else {
            1int
        }),
    {
        let weights = messages[selected_count].1;
        let new_weight = match selected_weight.checked_add(weights.weight) {
            Some(w) => if w <= max_weight {
                Some(w)
            } else if selected_count == 0 {
                Some(w)
            } else {
                None
            },
            None => if selected_count == 0 {
                Some(u64::MAX)
            } else {
                None
            },
        };
        let new_size = match selected_size.checked_add(weights.size) {
            Some(s) => if s <= max_size {
                Some(s)
            } else if selected_count == 0 {
                Some(s)
            } else {
                None
            },
            None => if selected_count == 0 {
                Some(usize::MAX)
            } else {
                None
            },
        };
        let fits_count = (selected_count as u64) < max_count;
        match (new_weight, new_size) {
            (Some(w), Some(s)) => {
                if fits_count {
                    selected_weight = w;
                    selected_size = s;
                    selected_count = selected_count + 1;
                } else {
                    done = true;
                }
            },
            _ => {
                done = true;
            },
        }
    }
    (selected_count, selected_weight)
}

/// Total dispatch weight of the messages.
pub open spec fn total_weight(messages: Seq<(MessageNonce, MessageWeights)>) -> int
    decreases messages.len(),
{
    if messages.len() == 0 {
        0
    } else {
        total_weight(messages.drop_last()) + messages.last().1.weight
    }
}

/// Total size of the messages.
pub open spec fn total_size(messages: Seq<(MessageNonce, MessageWeights)>) -> int
    decreases messages.len(),
{
    if messages.len() == 0 {
        0
    } else {
        total_size(messages.drop_last()) + messages.last().1.size
    }
}

/// The nonces of the messages follow each other without a gap.
pub open spec fn nonces_consecutive(messages: Seq<(MessageNonce, MessageWeights)>) -> bool {
    forall|j: int| 0 <= j < messages.len() ==> #[trigger] messages[j].0 == messages[0].0 + j
}

/// `batch` takes no more messages than there are nor than `max_count`; its
/// weight is the total weight of the messages it takes; and it takes more than
/// one message only within `max_weight` and `max_size`.
proof fn lemma_batch_bounds(
    messages: Seq<(MessageNonce, MessageWeights)>,
    max_weight: Weight,
    max_size: usize,
    max_count: MessageNonce,
    i: nat,
    weight: Weight,
    size: usize,
)
    requires
        i <= messages.len(),
        i <= max_count,
        weight == total_weight(messages.take(i as int)),
        size == total_size(messages.take(i as int)),
        i >= 2 ==> weight <= max_weight && size <= max_size,
    ensures
        ({
            let (n, w) = batch(messages, max_weight, max_size, max_count, i, weight, size);
            &&& i <= n <= messages.len()
            &&& n <= max_count
            &&& w == total_weight(messages.take(n as int))
            &&& n >= 2 ==> w <= max_weight && total_size(messages.take(n as int)) <= max_size
            &&& n == i ==> w == weight
        }),
    decreases messages.len() - i,
{
    if i < messages.len() && i + 1 <= max_count {
        assert(messages.take((i + 1) as int).drop_last() =~= messages.take(i as int));
        assert(messages.take((i + 1) as int).last() == messages[i as int]);
        match (
            added_weight(weight, messages[i as int].1.weight, max_weight, i),
            added_size(size, messages[i as int].1.size, max_size, i),
        ) {
            (Some(w), Some(s)) => {
                if i == 0 {
                    assert(messages.take(0) =~= Seq::<(MessageNonce, MessageWeights)>::empty());
                }
                lemma_batch_bounds(messages, max_weight, max_size, max_count, i + 1, w, s);
            },
            _ => {},
        }
    }
}

/// A delivery transaction never carries more messages than the batch limit
/// allows, nor more than the target node would accept unconfirmed. Its
/// dispatch weight is the total weight of the messages that it carries, and it
/// carries more than one message only within the weight and size limits.
/// Where the queued nonces follow each other without a gap, the range of the
/// carried nonces is as long as the number of carried messages.
pub proof fn lemma_delivery_within_limits(
    confirmed_at_source: Option<MessageNonce>,
    target_nonces: Option<TargetClientNonces<DeliveryRaceTargetNoncesData>>,
    max_unrewarded_relayer_entries: MessageNonce,
    max_unconfirmed_nonces: MessageNonce,
    max_messages_in_batch: MessageNonce,
    messages: Seq<(MessageNonce, MessageWeights)>,
    max_weight: Weight,
    max_size: usize,
)
    ensures
        delivery_allowance(
            confirmed_at_source,
            target_nonces,
            max_unrewarded_relayer_entries,
            max_unconfirmed_nonces,
            max_messages_in_batch,
        ) matches Some((_, max_nonces)) ==> {
            let (n, weight) = batch(messages, max_weight, max_size, max_nonces, 0, 0, 0);
            &&& max_nonces <= max_messages_in_batch
            &&& max_nonces <= max_unconfirmed_nonces
            &&& n <= max_nonces
            &&& n <= messages.len()
            &&& weight == total_weight(messages.take(n as int))
            &&& n >= 2 ==> weight <= max_weight && total_size(messages.take(n as int)) <= max_size
            &&& (n >= 1 && nonces_consecutive(messages)) ==> messages[n - 1].0 - messages[0].0 + 1 == n
        },
{
    assert(messages.take(0) =~= Seq::<(MessageNonce, MessageWeights)>::empty());
    if let Some((_, max_nonces)) = delivery_allowance(
        confirmed_at_source,
        target_nonces,
        max_unrewarded_relayer_entries,
        max_unconfirmed_nonces,
        max_messages_in_batch,
    ) {
        lemma_batch_bounds(messages, max_weight, max_size, max_nonces, 0, 0, 0);
        let (n, weight) = batch(messages, max_weight, max_size, max_nonces, 0, 0, 0);
        if n >= 1 && nonces_consecutive(messages) {
            assert(messages[n - 1].0 == messages[0].0 + (n - 1));
        }
    }
}

} // verus!
