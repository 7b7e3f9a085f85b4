//! Message race: ranges of message nonces, the state of a race and the basic
//! delivery strategy. The strategy selects nonces if:
//!
//! 1) there are more nonces on the source side than on the target side;
//! 2) new nonces may be proved to target node (i.e. they have appeared at the
//!    block, which is known to the target node).

use vstd::prelude::*;

use std::collections::VecDeque;
use std::ops::RangeInclusive;

use crate::utils::HeaderId;

verus! {

/// Message nonce: position of a message in its lane.
pub type MessageNonce = u64;

/// Dispatch weight of a message.
pub type Weight = u64;

/// Calls `RangeInclusive::start` of std: the lower bound of the range, as
/// vstd's view of the range holds it.
#[verifier::external_body]
pub(crate) fn range_start(r: &RangeInclusive<MessageNonce>) -> (ret: MessageNonce)
    ensures
        ret == r@.start,
{
    *r.start()
}

/// Calls `RangeInclusive::end` of std: the upper bound of the range, as vstd's
/// view of the range holds it.
#[verifier::external_body]
pub(crate) fn range_end(r: &RangeInclusive<MessageNonce>) -> (ret: MessageNonce)
    ensures
        ret == r@.end,
{
    *r.end()
}

/// Calls `RangeInclusive::is_empty` of std: a range holds no nonce when it is
/// exhausted or its start is above its end.
#[verifier::external_body]
pub(crate) fn range_is_empty(r: &RangeInclusive<MessageNonce>) -> (ret: bool)
    ensures
        ret == (r@.exhausted || r@.start > r@.end),
{
    r.is_empty()
}

/// Range of nonces, as the race sees it.
pub trait NoncesRange: Sized {
    /// First nonce of the range.
    spec fn spec_begin(&self) -> MessageNonce;

    /// Last nonce of the range.
    spec fn spec_end(&self) -> MessageNonce;

    /// `part` is what the range keeps of its nonces above `nonce`.
    spec fn spec_part_above(&self, nonce: MessageNonce, part: Self) -> bool;

    /// Get begin of the range.
    fn begin(&self) -> (r: MessageNonce)
        ensures
            r == self.spec_begin(),
    ;

    /// Get end of the range.
    fn end(&self) -> (r: MessageNonce)
        ensures
            r == self.spec_end(),
    ;

    /// Returns new range with current range nonces that are greater than given
    /// nonce, or `None` if there are no such nonces.
    fn greater_than(self, nonce: MessageNonce) -> (r: Option<Self>)
        ensures
            r is None <==> self.spec_end() <= nonce,
            r matches Some(part) ==> {
                &&& self.spec_part_above(nonce, part)
                &&& part.spec_begin() > nonce
                &&& part.spec_end() == self.spec_end()
            },
    ;
}

impl NoncesRange for RangeInclusive<MessageNonce> {
    open spec fn spec_begin(&self) -> MessageNonce {
        self@.start
    }

    open spec fn spec_end(&self) -> MessageNonce {
        self@.end
    }

    open spec fn spec_part_above(&self, nonce: MessageNonce, part: Self) -> bool {
        &&& part@.start == if self@.start > nonce {
            self@.start
        } else {
            (nonce + 1) as u64
        }
        &&& part@.end == self@.end
        &&& !part@.exhausted
    }

    fn begin(&self) -> (r: MessageNonce) {
        range_start(self)
    }

    fn end(&self) -> (r: MessageNonce) {
        range_end(self)
    }

    fn greater_than(self, nonce: MessageNonce) -> (r: Option<Self>) {
        let end = range_end(&self);
        if nonce >= end {
            None
        } else {
            let start = range_start(&self);
            let begin = if start > nonce {
                start
            } else {
                nonce + 1
            };
            Some(RangeInclusive::new(begin, end))
        }
    }
}

/// Nonces, read from the source client, that the race has to deliver.
#[derive(Debug, Clone)]
pub struct SourceClientNonces<R> {
    /// New nonces range known to the client. `New` here means all nonces
    /// generated after `prev_latest_nonce` passed to the `SourceClient::nonces` method.
    pub new_nonces: R,
    /// The latest nonce that is confirmed to the bridged client. This nonce only
    /// makes sense in some races. In other races it is `None`.
    pub confirmed_nonce: Option<MessageNonce>,
}

/// Nonces on the race target client.
#[derive(Debug, Clone)]
pub struct TargetClientNonces<D> {
    /// Latest nonce that is known to the target client.
    pub latest_nonce: MessageNonce,
    /// Additional data from target node that may be used by the race.
    pub nonces_data: D,
}

/// State of the client.
#[derive(Clone, Debug, Default, PartialEq)]
pub struct ClientState<SelfHeaderId, PeerHeaderId> {
    /// Best header id of this chain.
    pub best_self: SelfHeaderId,
    /// Best finalized header id of this chain.
    pub best_finalized_self: SelfHeaderId,
    /// Best finalized header id of the peer chain read at the best block of this chain (at `best_finalized_self`).
    pub best_finalized_peer_at_best_self: PeerHeaderId,
}

/// State of the race.
#[derive(Debug, Clone)]
pub struct RaceState<P> {
    /// Best finalized source header id at the source client.
    pub best_finalized_source_header_id_at_source: Option<HeaderId>,
    /// Best finalized source header id at the best block on the target
    /// client (at the `best_finalized_source_header_id_at_best_target`).
    pub best_finalized_source_header_id_at_best_target: Option<HeaderId>,
    /// Best header id at the target client.
    pub best_target_header_id: Option<HeaderId>,
    /// Best finalized header id at the target client.
    pub best_finalized_target_header_id: Option<HeaderId>,
    /// Range of nonces that we have selected to submit.
    pub nonces_to_submit: Option<(HeaderId, RangeInclusive<MessageNonce>, P)>,
    /// Range of nonces that is currently submitted.
    pub nonces_submitted: Option<RangeInclusive<MessageNonce>>,
}

impl<P> Default for RaceState<P> {
    fn default() -> (r: Self)
        ensures
            r.best_finalized_source_header_id_at_source is None,
            r.best_finalized_source_header_id_at_best_target is None,
            r.best_target_header_id is None,
            r.best_finalized_target_header_id is None,
            r.nonces_to_submit is None,
            r.nonces_submitted is None,
    {
        RaceState {
            best_finalized_source_header_id_at_source: None,
            best_finalized_source_header_id_at_best_target: None,
            best_target_header_id: None,
            best_finalized_target_header_id: None,
            nonces_to_submit: None,
            nonces_submitted: None,
        }
    }
}

/// The ranges of a source queue end in increasing order.
pub open spec fn ends_increasing<R: NoncesRange>(queue: Seq<(HeaderId, R)>) -> bool {
    forall|i: int, j: int|
        0 <= i < j < queue.len() ==> (#[trigger] queue[i]).1.spec_end() < (#[trigger] queue[j]).1.spec_end()
}

/// `after` is the source queue `before` without the nonces up to `nonce`:
/// the leading ranges that end at or below `nonce` are gone, and of the first
/// range that ends above it, only the part above `nonce` stays.
pub open spec fn queue_above<R: NoncesRange>(
    before: Seq<(HeaderId, R)>,
    nonce: MessageNonce,
    after: Seq<(HeaderId, R)>,
) -> bool {
    let k = before.len() - after.len();
    &&& after.len() <= before.len()
    &&& forall|j: int| 0 <= j < k ==> (#[trigger] before[j]).1.spec_end() <= nonce
    &&& after.len() > 0 ==> {
        &&& before[k].1.spec_end() > nonce
        &&& after[0].0 == before[k].0
        &&& before[k].1.spec_part_above(nonce, after[0].1)
        &&& after.skip(1) == before.skip(k + 1)
    }
}

/// `after` is the source queue `before` once the ranges that begin at or below
/// `nonce` have been dropped from its front: dropped ranges end at or below
/// `nonce` too; a range that begins at or below `nonce` and ends above it is
/// cut to its part above `nonce`, and what follows stays.
pub open spec fn queue_front_above<R: NoncesRange>(
    before: Seq<(HeaderId, R)>,
    nonce: MessageNonce,
    after: Seq<(HeaderId, R)>,
) -> bool {
    let k = before.len() - after.len();
    &&& after.len() <= before.len()
    &&& forall|j: int|
        0 <= j < k ==> (#[trigger] before[j]).1.spec_begin() <= nonce && before[j].1.spec_end() <= nonce
    &&& after.len() > 0 ==> {
        ||| before[k].1.spec_begin() > nonce && after == before.skip(k)
        ||| {
            &&& before[k].1.spec_begin() <= nonce
            &&& before[k].1.spec_end() > nonce
            &&& after[0].0 == before[k].0
            &&& before[k].1.spec_part_above(nonce, after[0].1)
            &&& after.skip(1) == before.skip(k + 1)
        }
    }
}

/// Index of the last entry of the queue whose header is at most `best`, in
/// the run of such entries at the front of the queue (`None` if the first
/// entry is above `best`, or there is none).
pub open spec fn available_index<R>(queue: Seq<(HeaderId, R)>, best: u64, index: Option<usize>) -> bool {
    match index {
        None => queue.len() == 0 || queue[0].0.0 > best,
        Some(i) => {
            &&& i < queue.len()
            &&& forall|j: int| 0 <= j <= i ==> (#[trigger] queue[j]).0.0 <= best
            &&& i + 1 < queue.len() ==> queue[i + 1].0.0 > best
        },
    }
}

/// What the race has to deliver and which entries of the queue can be
/// delivered now: nothing while the best target nonce is unknown, while
/// nonces are selected or submitted already, or while the best finalized
/// source header at the target is unknown.
pub open spec fn maximal_available_index<R, P>(
    queue: Seq<(HeaderId, R)>,
    best_target_nonce: Option<MessageNonce>,
    race_state: RaceState<P>,
    index: Option<usize>,
) -> bool {
    if best_target_nonce is None || race_state.nonces_to_submit is Some || race_state.nonces_submitted is Some
        || race_state.best_finalized_source_header_id_at_best_target is None {
        index is None
    } else {
        available_index(queue, (race_state.best_finalized_source_header_id_at_best_target->0).0, index)
    }
}

/// Nonces delivery strategy.
#[derive(Debug)]
pub struct BasicStrategy<R> {
    /// All queued nonces.
    source_queue: VecDeque<(HeaderId, R)>,
    /// Best nonce known to target node (at its best block). `None` if it has not been received yet.
    best_target_nonce: Option<MessageNonce>,
}

impl<R: NoncesRange> BasicStrategy<R> {
    /// All queued nonces, with the header at which each range has been seen.
    pub closed spec fn queue_view(&self) -> Seq<(HeaderId, R)> {
        self.source_queue@
    }

    /// Best nonce known to target node.
    pub closed spec fn best_target_view(&self) -> Option<MessageNonce> {
        self.best_target_nonce
    }

    /// The queued ranges are ordered.
    pub open spec fn wf(&self) -> bool {
        ends_increasing(self.queue_view())
    }

    /// Create new delivery strategy.
    pub fn new() -> (r: Self)
        ensures
            r.wf(),
            r.queue_view().len() == 0,
            r.best_target_view() is None,
    {
        BasicStrategy { source_queue: VecDeque::new(), best_target_nonce: None }
    }

    /// Reference to source queue.
    pub fn source_queue(&self) -> (r: &VecDeque<(HeaderId, R)>)
        ensures
            r@ == self.queue_view(),
    {
        &self.source_queue
    }

    /// Returns index of the latest source queue entry, that may be delivered to the target node.
    ///
    /// Returns `None` if no entries may be delivered. All entries before and including the `Some(_)`
    /// index are guaranteed to be witnessed at source blocks that are known to be finalized at the
    /// target node.
    pub fn maximal_available_source_queue_index<P>(&self, race_state: &RaceState<P>) -> (r: Option<usize>)
        ensures
            maximal_available_index(self.queue_view(), self.best_target_view(), *race_state, r),
    {
        if self.best_target_nonce.is_none() {
            return None;
        }
        if race_state.nonces_to_submit.is_some() {
            return None;
        }
        if race_state.nonces_submitted.is_some() {
            return None;
        }
        let best_header_at_target = match race_state.best_finalized_source_header_id_at_best_target {
            Some(id) => id,
            None => return None,
        };
        let mut count: usize = 0;
        while count < self.source_queue.len() && self.source_queue[count].0.0 <= best_header_at_target.0
            invariant
                count <= self.source_queue@.len(),
                forall|j: int| 0 <= j < count ==> (#[trigger] self.source_queue@[j]).0.0 <= best_header_at_target.0,
            decreases self.source_queue@.len() - count,
        {
            count = count + 1;
        }
        if count == 0 {
            None
        } else {
            Some(count - 1)
        }
    }

    /// Remove all nonces that are less than or equal to given nonce from the source queue.
    pub fn remove_le_nonces_from_source_queue(&mut self, nonce: MessageNonce)
        requires
            old(self).wf(),
        ensures
            final(self).wf(),
            final(self).best_target_view() == old(self).best_target_view(),
            queue_above(old(self).queue_view(), nonce, final(self).queue_view()),
            final(self).queue_view().len() > 0 ==> final(self).queue_view()[0].1.spec_begin() > nonce,
    {
        let ghost before = self.source_queue@;
        loop
            invariant_except_break
                self.source_queue@.len() <= before.len(),
                self.source_queue@ == before.skip(before.len() - self.source_queue@.len()),
                forall|j: int| 0 <= j < before.len() - self.source_queue@.len() ==> (#[trigger] before[j]).1.spec_end() <= nonce,
            invariant
                ends_increasing(before),
                self.best_target_nonce == old(self).best_target_nonce,
                before == old(self).source_queue@,
            ensures
                queue_above(before, nonce, self.source_queue@),
                ends_increasing(self.source_queue@),
                self.source_queue@.len() > 0 ==> self.source_queue@[0].1.spec_begin() > nonce,
            decreases self.source_queue@.len(),
        {
            let ghost k = before.len() - self.source_queue@.len();
            match self.source_queue.pop_front() {
                None => {
                    break;
                },
                Some((queued_at, queued_range)) => {
                    proof {
                        assert(before[k] == (queued_at, queued_range));
                    }
                    match queued_range.greater_than(nonce) {
                        Some(range_to_requeue) => {
                            self.source_queue.push_front((queued_at, range_to_requeue));
                            proof {
                                let after = self.source_queue@;
                                assert(after.skip(1) =~= before.skip(k + 1));
                                assert forall|i: int, j: int| 0 <= i < j < after.len() implies
                                    (#[trigger] after[i]).1.spec_end() < (#[trigger] after[j]).1.spec_end() by {
                                    assert(after[j] == before[k + j]);
                                    if i > 0 {
                                        assert(after[i] == before[k + i]);
                                    }
                                }
                            }
                            break;
                        },
                        None => {
                            proof {
                                assert(self.source_queue@ =~= before.skip(before.len() - self.source_queue@.len()));
                            }
                        },
                    }
                },
            }
        }
    }

    /// Should return true if nothing has to be synced.
    pub fn is_empty(&self) -> (r: bool)
        ensures
            r == (self.queue_view().len() == 0),
    {
        self.source_queue.len() == 0
    }

    /// Return id of source header that is required to be on target to continue
    /// synchronization: the header of the last queued range, if it is above the
    /// given best one.
    pub fn required_source_header_at_target(&self, current_best: &HeaderId) -> (r: Option<HeaderId>)
        ensures
            self.queue_view().len() == 0 ==> r is None,
            self.queue_view().len() > 0 ==> {
                let last = self.queue_view().last().0;
                &&& last.0 > current_best.0 ==> r == Some(last)
                &&& last.0 <= current_best.0 ==> r is None
            },
    {
        let len = self.source_queue.len();
        if len == 0 {
            return None;
        }
        let last = self.source_queue[len - 1].0;
        if last.0 > current_best.0 {
            Some(last)
        } else {
            None
        }
    }

    /// Best nonce at source side: the end of the last queued range, if it is
    /// above the best nonce at target, and the best nonce at target otherwise.
    /// It is never lower than the best nonce at target, and unknown while that
    /// is unknown.
    pub fn best_at_source(&self) -> (r: Option<MessageNonce>)
        ensures
            r == best_at_source_spec(self.queue_view(), self.best_target_view()),
    {
        let len = self.source_queue.len();
        match self.best_target_nonce {
            None => None,
            Some(best_target_nonce) => {
                if len > 0 {
                    let best_in_queue = self.source_queue[len - 1].1.end();
                    if best_in_queue > best_target_nonce {
                        return Some(best_in_queue);
                    }
                }
                Some(best_target_nonce)
            },
        }
    }

    /// Best nonce at target side.
    pub fn best_at_target(&self) -> (r: Option<MessageNonce>)
        ensures
            r == self.best_target_view(),
    {
        self.best_target_nonce
    }

    /// Called when nonces are updated at source node of the race: the part of
    /// the new nonces above the best known nonce (see `best_known_nonce`) is
    /// queued, at the given block.
    pub fn source_nonces_updated(&mut self, at_block: HeaderId, nonces: SourceClientNonces<R>)
        requires
            old(self).wf(),
        ensures
            final(self).wf(),
            final(self).best_target_view() == old(self).best_target_view(),
            ({
                let best = best_known_nonce(old(self).queue_view(), old(self).best_target_view());
                if nonces.new_nonces.spec_end() <= best {
                    final(self).queue_view() == old(self).queue_view()
                } else {
                    let q = final(self).queue_view();
                    &&& q.len() == old(self).queue_view().len() + 1
                    &&& q.drop_last() == old(self).queue_view()
                    &&& q.last().0 == at_block
                    &&& nonces.new_nonces.spec_part_above(best, q.last().1)
                    &&& q.last().1.spec_begin() > best
                    &&& q.last().1.spec_end() == nonces.new_nonces.spec_end()
                }
            }),
    {
        let len = self.source_queue.len();
        let best_in_queue = if len > 0 {
            self.source_queue[len - 1].1.end()
        } else {
            match self.best_target_nonce {
                Some(nonce) => nonce,
                None => 0,
            }
        };
        let ghost before = self.source_queue@;
        match nonces.new_nonces.greater_than(best_in_queue) {
            Some(range) => {
                self.source_queue.push_back((at_block, range));
                proof {
                    let q = self.source_queue@;
                    assert(q.drop_last() =~= before);
                    assert forall|i: int, j: int| 0 <= i < j < q.len() implies
                        (#[trigger] q[i]).1.spec_end() < (#[trigger] q[j]).1.spec_end() by {
                        if j == q.len() - 1 && i < j {
                            assert(q[i] == before[i]);
                            if i < before.len() - 1 {
                                assert(before[i].1.spec_end() < before[before.len() - 1].1.spec_end());
                            }
                        } else {
                            assert(q[i] == before[i]);
                            assert(q[j] == before[j]);
                        }
                    }
                }
            },
            None => {},
        }
    }

    /// Called when best nonces are updated at target node of the race.
    ///
    /// A nonce below the best known one is ignored. Otherwise the queued
    /// ranges that begin at or below it are dropped (see `queue_front_above`),
    /// the selected and the submitted nonces are forgotten once the nonce
    /// reaches their end, and the nonce becomes the best target nonce.
    pub fn best_target_nonces_updated<P>(
        &mut self,
        nonces: TargetClientNonces<()>,
        race_state: &mut RaceState<P>,
    )
        requires
            old(self).wf(),
        ensures
            final(self).wf(),
            old(self).best_target_view() matches Some(best) ==> final(self).best_target_view() matches Some(
                new_best,
            ) && new_best >= best,
            ({
                let nonce = nonces.latest_nonce;
                if old(self).best_target_view() matches Some(best) && nonce < best {
                    &&& *final(self) == *old(self)
                    &&& *final(race_state) == *old(race_state)
                } else {
                    &&& final(self).best_target_view() == Some(nonce)
                    &&& queue_front_above(old(self).queue_view(), nonce, final(self).queue_view())
                    &&& final(self).queue_view().len() > 0 ==> final(self).queue_view()[0].1.spec_begin() > nonce
                    &&& final(race_state).nonces_to_submit == if old(race_state).nonces_to_submit matches Some(
                        to_submit,
                    ) && to_submit.1@.end <= nonce {
                        None
                    } else {
                        old(race_state).nonces_to_submit
                    }
                    &&& final(race_state).nonces_submitted == if old(race_state).nonces_submitted matches Some(
                        submitted,
                    ) && submitted@.end <= nonce {
                        None
                    } else {
                        old(race_state).nonces_submitted
                    }
                    &&& final(race_state).best_finalized_source_header_id_at_source == old(
                        race_state,
                    ).best_finalized_source_header_id_at_source
                    &&& final(race_state).best_finalized_source_header_id_at_best_target == old(
                        race_state,
                    ).best_finalized_source_header_id_at_best_target
                    &&& final(race_state).best_target_header_id == old(race_state).best_target_header_id
                    &&& final(race_state).best_finalized_target_header_id == old(
                        race_state,
                    ).best_finalized_target_header_id
                }
            }),
    {
        let nonce = nonces.latest_nonce;
        match self.best_target_nonce {
            Some(best_target_nonce) => {
                if nonce < best_target_nonce {
                    return;
                }
            },
            None => {},
        }
        let ghost before = self.source_queue@;
        loop
            invariant_except_break
                self.source_queue@.len() <= before.len(),
                self.source_queue@ == before.skip(before.len() - self.source_queue@.len()),
                forall|j: int|
                    0 <= j < before.len() - self.source_queue@.len() ==> (#[trigger] before[j]).1.spec_begin()
                        <= nonce && before[j].1.spec_end() <= nonce,
            invariant
                ends_increasing(before),
                self.best_target_nonce == old(self).best_target_nonce,
                before == old(self).source_queue@,
            ensures
                queue_front_above(before, nonce, self.source_queue@),
                ends_increasing(self.source_queue@),
                self.source_queue@.len() > 0 ==> self.source_queue@[0].1.spec_begin() > nonce,
            decreases self.source_queue@.len(),
        {
            let ghost k = before.len() - self.source_queue@.len();
            if self.source_queue.len() == 0 {
                break;
            }
            if self.source_queue[0].1.begin() > nonce {
                proof {
                    assert(self.source_queue@[0] == before[k]);
                    assert forall|i: int, j: int| 0 <= i < j < self.source_queue@.len() implies
                        (#[trigger] self.source_queue@[i]).1.spec_end() < (#[trigger] self.source_queue@[j]).1.spec_end() by {
                        assert(self.source_queue@[i] == before[k + i]);
                        assert(self.source_queue@[j] == before[k + j]);
                    }
                }
                break;
            }
            match self.source_queue.pop_front() {
                None => {
                    break;
                },
                Some((queued_at, queued_range)) => {
                    proof {
                        assert(before[k] == (queued_at, queued_range));
                    }
                    match queued_range.greater_than(nonce) {
                        Some(range_to_requeue) => {
                            self.source_queue.push_front((queued_at, range_to_requeue));
                            proof {
                                let after = self.source_queue@;
                                assert(after.skip(1) =~= before.skip(k + 1));
                                assert forall|i: int, j: int| 0 <= i < j < after.len() implies
                                    (#[trigger] after[i]).1.spec_end() < (#[trigger] after[j]).1.spec_end() by {
                                    assert(after[j] == before[k + j]);
                                    if i > 0 {
                                        assert(after[i] == before[k + i]);
                                    }
                                }
                            }
                            break;
                        },
                        None => {
                            proof {
                                assert(self.source_queue@ =~= before.skip(before.len() - self.source_queue@.len()));
                            }
                        },
                    }
                },
            }
        }
        let drop_to_submit = match &race_state.nonces_to_submit {
            Some(to_submit) => range_end(&to_submit.1) <= nonce,
            None => false,
        };
        if drop_to_submit {
            race_state.nonces_to_submit = None;
        }
        let drop_submitted = match &race_state.nonces_submitted {
            Some(submitted) => range_end(submitted) <= nonce,
            None => false,
        };
        if drop_submitted {
            race_state.nonces_submitted = None;
        }
        self.best_target_nonce = Some(nonce);
    }

    /// Called when finalized nonces are updated at target node of the race:
    /// the best target nonce becomes the greater of the known one and the
    /// given one.
    pub fn finalized_target_nonces_updated<P>(
        &mut self,
        nonces: TargetClientNonces<()>,
        race_state: &mut RaceState<P>,
    )
        ensures
            old(self).best_target_view() matches Some(best) ==> final(self).best_target_view() matches Some(
                new_best,
            ) && new_best >= best,
            final(self).queue_view() == old(self).queue_view(),
            final(self).best_target_view() == Some(
                match old(self).best_target_view() {
                    Some(best) => if best > nonces.latest_nonce {
                        best
                    } else {
                        nonces.latest_nonce
                    },
                    None => nonces.latest_nonce,
                },
            ),
            *final(race_state) == *old(race_state),
    {
        let nonce = nonces.latest_nonce;
        self.best_target_nonce = match self.best_target_nonce {
            Some(best) => Some(
                if best > nonce {
                    best
                } else {
                    nonce
                },
            ),
            None => Some(nonce),
        };
    }

    /// Should return `Some(nonces)` if we need to deliver proof of `nonces` (and associated
    /// data) from source to target node: all queued nonces up to the end of the
    /// maximal available entry (see `maximal_available_index`), which then
    /// leave the queue.
    pub fn select_nonces_to_deliver<P>(&mut self, race_state: RaceState<P>) -> (r: Option<
        (RangeInclusive<MessageNonce>, ()),
    >)
        requires
            old(self).wf(),
        ensures
            final(self).wf(),
            final(self).best_target_view() == old(self).best_target_view(),
            r matches Some((range, _)) ==> (final(self).queue_view().len() > 0 ==> final(self).queue_view()[0].1.spec_begin()
                > range@.end),
            ({
                let q = old(self).queue_view();
                match r {
                    None => maximal_available_index(q, old(self).best_target_view(), race_state, None)
                        && final(self).queue_view() == q,
                    Some((range, _)) => exists|i: usize| {
                        &&& #[trigger] maximal_available_index(q, old(self).best_target_view(), race_state, Some(i))
                        &&& range@.start == q[0].1.spec_begin()
                        &&& range@.end == q[i as int].1.spec_end()
                        &&& !range@.exhausted
                        &&& queue_above(q, q[i as int].1.spec_end(), final(self).queue_view())
                    },
                }
            }),
    {
        let maximal_source_queue_index = match self.maximal_available_source_queue_index(&race_state) {
            Some(index) => index,
            None => return None,
        };
        let range_begin = self.source_queue[0].1.begin();
        let range_end = self.source_queue[maximal_source_queue_index].1.end();
        self.remove_le_nonces_from_source_queue(range_end);
        Some((RangeInclusive::new(range_begin, range_end), ()))
    }
}

/// The best nonce known to the strategy: the end of the last queued range, or
/// the best nonce at target if nothing is queued, or zero if that is unknown too.
pub open spec fn best_known_nonce<R: NoncesRange>(
    queue: Seq<(HeaderId, R)>,
    best_target_nonce: Option<MessageNonce>,
) -> MessageNonce {
    if queue.len() > 0 {
        queue.last().1.spec_end()
    } else {
        match best_target_nonce {
            Some(nonce) => nonce,
            None => 0,
        }
    }
}

/// Best nonce at source side is never lower than the best nonce at target, and
/// it is known exactly when that is known.
pub proof fn lemma_best_at_source_not_below_target<R: NoncesRange>(
    queue: Seq<(HeaderId, R)>,
    best_target_nonce: Option<MessageNonce>,
)
    ensures
        best_at_source_spec(queue, best_target_nonce) is Some <==> best_target_nonce is Some,
        best_target_nonce matches Some(target) ==> best_at_source_spec(queue, best_target_nonce)->0 >= target,
{
}

/// Best nonce at source side (see `BasicStrategy::best_at_source`).
pub open spec fn best_at_source_spec<R: NoncesRange>(
    queue: Seq<(HeaderId, R)>,
    best_target_nonce: Option<MessageNonce>,
) -> Option<MessageNonce> {
    match best_target_nonce {
        None => None,
        Some(target) => if queue.len() > 0 && queue.last().1.spec_end() > target {
            Some(queue.last().1.spec_end())
        } else {
            Some(target)
        },
    }
}

} // verus!
