//! Decisions of the headers synchronization loop: what the loop asks the
//! source and the target nodes next, and what it does with their answers. The
//! loop itself (clients, timers, futures) drives these functions.

use vstd::prelude::*;

use crate::headers::{count_status, fetch_due, headers_with_status};
use crate::linked_map::without_key;
use crate::sync::{EncodedSize, HeadersSync};
use crate::sync_types::{HeaderStatus, QueuedHeader};
use crate::utils::HeaderId;

verus! {

/// When we submit headers to target node, but see no updates of best
/// source block known to target node during `STALL_SYNC_TIMEOUT` (in
/// nanoseconds: five minutes), we consider that our headers are rejected
/// because there has been reorg in target chain, and restart the sync.
pub const STALL_SYNC_TIMEOUT: u128 = 300_000_000_000;

/// Delay (in nanoseconds: ten minutes) after we have seen update of best source
/// header at target node, for us to treat sync stalled. ONLY when relay operates
/// in backup mode.
pub const BACKUP_STALL_SYNC_TIMEOUT: u128 = 600_000_000_000;

/// Interval (in nanoseconds: thirty seconds) between calling sync maintain procedure.
pub const MAINTAIN_INTERVAL: u128 = 30_000_000_000;

/// What happens to the stall countdown once the best header of the target node
/// has been received.
#[derive(Debug, Clone, Copy, PartialEq, Eq, Structural)]
pub enum StallCountdown {
    /// The countdown starts again now.
    Restart,
    /// The countdown stops.
    Stop,
    /// The countdown goes on as it was.
    Keep,
    /// The sync has stalled: it has been restarted and the countdown stops.
    SyncRestarted,
}

/// Receive the best header of the target node (see
/// `HeadersSync::target_best_header_response`), and decide what happens to the
/// stall countdown, which has run for `countdown_elapsed` nanoseconds if it
/// runs.
///
/// If the head is updated, the countdown restarts while some of our headers
/// are still submitted, and stops otherwise. If it is not, nothing changes
/// until the countdown has run for `STALL_SYNC_TIMEOUT`: then the sync restarts.
/// Returns whether the head was updated.
pub fn target_best_block_response<H, E>(
    sync: &mut HeadersSync<H, E>,
    best_header: HeaderId,
    countdown_elapsed: Option<u128>,
) -> (r: (bool, StallCountdown))
    requires
        old(sync).wf(),
    ensures
        final(sync).wf(),
        r.0 == (old(sync).target_best_view() != Some(best_header)),
        r.0 ==> {
            let submitted = count_status(final(sync).headers_view().state().entries, HeaderStatus::Submitted);
            &&& final(sync).target_best_view() == Some(best_header)
            &&& submitted != 0 ==> r.1 == StallCountdown::Restart
            &&& submitted == 0 ==> r.1 == StallCountdown::Stop
        },
        !r.0 ==> match countdown_elapsed {
            Some(elapsed) if elapsed >= STALL_SYNC_TIMEOUT => {
                &&& r.1 == StallCountdown::SyncRestarted
                &&& final(sync).source_best_view() is None
                &&& final(sync).target_best_view() is None
                &&& final(sync).headers_view().state().entries.len() == 0
            },
            _ => r.1 == StallCountdown::Keep && *final(sync) == *old(sync),
        },
{
    let head_updated = sync.target_best_header_response(best_header);
    if head_updated {
        if sync.headers().headers_in_status(HeaderStatus::Submitted) != 0 {
            (true, StallCountdown::Restart)
        } else {
            (true, StallCountdown::Stop)
        }
    } else {
        match countdown_elapsed {
            Some(elapsed) => {
                if elapsed >= STALL_SYNC_TIMEOUT {
                    sync.restart();
                    (false, StallCountdown::SyncRestarted)
                } else {
                    (false, StallCountdown::Keep)
                }
            },
            None => (false, StallCountdown::Keep),
        }
    }
}

/// What a headers submission result means for the loop.
#[derive(Debug, Clone, Copy, PartialEq, Eq, Structural)]
pub enum SubmitVerdict {
    /// There was no error.
    Accepted,
    /// The target node failed with a fatal error: a connection error if the
    /// flag is set.
    FatalError(bool),
    /// The target node has rejected all headers, and none of ours is waiting
    /// to be accepted.
    AllRejected,
}

/// Handle the result of a headers submission: `submitted` and `incomplete`
/// are the ids of submitted and incomplete headers, and `fatal_error` tells,
/// if a fatal error has occurred, whether it is a connection error.
///
/// Unless the connection has failed (then the loop stops and nothing changes),
/// the submitted headers are marked submitted and the incomplete ones are
/// remembered. If there was no error, but all headers have been rejected while
/// some of ours are still submitted, submission pauses until they are accepted.
pub fn submitted_headers_response<H, E>(
    sync: &mut HeadersSync<H, E>,
    submitted: Vec<HeaderId>,
    incomplete: Vec<HeaderId>,
    fatal_error: Option<bool>,
) -> (r: SubmitVerdict)
    requires
        old(sync).wf(),
    ensures
        final(sync).wf(),
        ({
            let all_rejected = submitted@.len() == 0 && incomplete@.len() == 0;
            let has_submitted = count_status(old(sync).headers_view().state().entries, HeaderStatus::Submitted)
                != 0;
            let verdict = match fatal_error {
                Some(connection) => SubmitVerdict::FatalError(connection),
                None => if all_rejected && !has_submitted {
                    SubmitVerdict::AllRejected
                } else {
                    SubmitVerdict::Accepted
                },
            };
            &&& r == verdict
            &&& r == SubmitVerdict::FatalError(true) ==> *final(sync) == *old(sync)
            &&& r != SubmitVerdict::FatalError(true) ==> {
                let queue = old(sync).headers_view();
                let marked = crate::headers::submitted_entries(queue.state().entries, submitted@);
                &&& final(sync).headers_view().state() == crate::headers::add_incomplete_spec(
                    crate::headers::QueueState { entries: marked, ..queue.state() },
                    false,
                    incomplete@,
                )
                &&& final(sync).paused_view() == (old(sync).paused_view() || (r == SubmitVerdict::Accepted
                    && all_rejected && has_submitted))
                &&& final(sync).params_view() == old(sync).params_view()
                &&& final(sync).source_best_view() == old(sync).source_best_view()
                &&& final(sync).target_best_view() == old(sync).target_best_view()
            }
        }),
{
    let all_headers_rejected = submitted.len() == 0 && incomplete.len() == 0;
    let has_submitted_headers = sync.headers().headers_in_status(HeaderStatus::Submitted) != 0;
    let verdict = match fatal_error {
        Some(connection) => SubmitVerdict::FatalError(connection),
        None => if all_headers_rejected && !has_submitted_headers {
            SubmitVerdict::AllRejected
        } else {
            SubmitVerdict::Accepted
        },
    };
    if verdict == SubmitVerdict::FatalError(true) {
        return verdict;
    }
    sync.headers_mut().headers_submitted(submitted);
    sync.headers_mut().add_incomplete_headers(false, incomplete);
    if verdict == SubmitVerdict::Accepted && all_headers_rejected && has_submitted_headers {
        sync.pause_submit();
    }
    verdict
}

/// Request that the loop makes to the target node.
#[derive(Debug, PartialEq)]
pub enum TargetRequest<H, E> {
    /// Ask for the best header known to the target node.
    BestHeaderId,
    /// Ask for the ids of incomplete headers.
    IncompleteHeadersIds,
    /// Submit completion data of the header.
    CompleteHeader(HeaderId, Vec<u8>),
    /// Ask whether the submission of the header requires extra data.
    RequiresExtra(QueuedHeader<H, E>),
    /// Ask whether the header is known to the target node.
    IsKnownHeader(HeaderId),
    /// Submit the headers.
    SubmitHeaders(Vec<QueuedHeader<H, E>>),
    /// Nothing to ask: the target client stays idle.
    Idle,
}

/// Select the next request to the target node, by priority: its best header
/// (stops us from downloading or submitting new blocks), the incomplete headers
/// (stop us from submitting new blocks), completion data to submit, the
/// extra data check of the first `MaybeExtra` header, the existence of the
/// parent of the first `MaybeOrphan` header, and then the headers to submit
/// (see `HeadersSync::submit_len`; the sync is stalled once the best header at
/// target has not been updated for `BACKUP_STALL_SYNC_TIMEOUT`).
pub fn select_target_request<H: Clone + EncodedSize, E: Clone>(
    sync: &mut HeadersSync<H, E>,
    best_block_required: bool,
    incomplete_headers_required: bool,
    since_last_update: u128,
) -> (r: TargetRequest<H, E>)
    requires
        old(sync).wf(),
    ensures
        final(sync).wf(),
        final(sync).params_view() == old(sync).params_view(),
        final(sync).source_best_view() == old(sync).source_best_view(),
        final(sync).target_best_view() == old(sync).target_best_view(),
        final(sync).paused_view() == old(sync).paused_view(),
        ({
            let before = old(sync).headers_view().state();
            let entries = before.entries;
            let stalled = since_last_update > BACKUP_STALL_SYNC_TIMEOUT;
            if best_block_required {
                r is BestHeaderId && final(sync).headers_view().state() == before
            } else if incomplete_headers_required {
                r is IncompleteHeadersIds && final(sync).headers_view().state() == before
            } else if before.completion.len() > 0 {
                let (k, c) = before.completion[0];
                &&& r matches TargetRequest::CompleteHeader(id, completion) && id == HeaderId(k.0, k.1)
                    && completion@ == c
                &&& final(sync).headers_view().state() == crate::headers::QueueState {
                    completion: without_key(before.completion.drop_first(), k).push((k, c)),
                    ..before
                }
            } else {
                &&& final(sync).headers_view().state() == before
                &&& if count_status(entries, HeaderStatus::MaybeExtra) > 0 {
                    r matches TargetRequest::RequiresExtra(h) && h.spec_id() == headers_with_status(
                        entries,
                        HeaderStatus::MaybeExtra,
                    )[0].spec_id()
                } else if count_status(entries, HeaderStatus::MaybeOrphan) > 0 {
                    r == TargetRequest::<H, E>::IsKnownHeader(
                        headers_with_status(entries, HeaderStatus::MaybeOrphan)[0].spec_parent_id(),
                    )
                } else if old(sync).submit_len(stalled) > 0 {
                    &&& r matches TargetRequest::SubmitHeaders(headers)
                    &&& headers@.len() == old(sync).submit_len(stalled)
                    &&& forall|k: int|
                        0 <= k < headers@.len() ==> (#[trigger] headers@[k]).spec_id() == headers_with_status(
                            entries,
                            HeaderStatus::Ready,
                        )[k].spec_id()
                } else {
                    r is Idle
                }
            }
        }),
{
    if best_block_required {
        return TargetRequest::BestHeaderId;
    }
    if incomplete_headers_required {
        return TargetRequest::IncompleteHeadersIds;
    }
    match sync.headers_mut().header_to_complete() {
        Some((id, completion)) => {
            return TargetRequest::CompleteHeader(id, completion);
        },
        None => {},
    }
    match sync.headers().header(HeaderStatus::MaybeExtra) {
        Some(header) => {
            return TargetRequest::RequiresExtra(header.clone());
        },
        None => {},
    }
    match sync.headers().header(HeaderStatus::MaybeOrphan) {
        Some(header) => {
            return TargetRequest::IsKnownHeader(header.parent_id());
        },
        None => {},
    }
    let stalled = since_last_update > BACKUP_STALL_SYNC_TIMEOUT;
    match sync.select_headers_to_submit(stalled) {
        Some(headers) => {
            let mut cloned: Vec<QueuedHeader<H, E>> = Vec::new();
            let mut i: usize = 0;
            while i < headers.len()
                invariant
                    i <= headers@.len(),
                    cloned@.len() == i,
                    forall|k: int| 0 <= k < i ==> (#[trigger] cloned@[k]).spec_id() == headers@[k].spec_id(),
                decreases headers@.len() - i,
            {
                cloned.push(headers[i].clone());
                i = i + 1;
            }
            TargetRequest::SubmitHeaders(cloned)
        },
        None => TargetRequest::Idle,
    }
}

/// Request that the loop makes to the source node.
#[derive(Debug, PartialEq)]
pub enum SourceRequest<H, E> {
    /// Ask for the best block number.
    BestBlockNumber,
    /// Ask for completion data of the header.
    HeaderCompletion(HeaderId),
    /// Ask for extra data of the header.
    HeaderExtra(HeaderId, QueuedHeader<H, E>),
    /// Download the header with the given hash: the parent of an orphan header.
    OrphanHeader(u64),
    /// Download the header with the given number.
    NewHeader(u64),
    /// The genesis header is considered orphan by the target node: the relay
    /// is misconfigured and the loop stops.
    GenesisOrphan,
    /// Nothing to ask: the source client stays idle.
    Idle,
}

/// Select the next request to the source node, by priority: its best block
/// number, completion data that is due (`now` is the current time in
/// nanoseconds), extra data of the first `Extra` header, the parent of an
/// orphan header (see `HeadersSync::orphan_header_spec`), and then a new
/// header (see `HeadersSync::new_header_spec`).
pub fn select_source_request<H: Clone, E: Clone>(
    sync: &mut HeadersSync<H, E>,
    best_block_number_required: bool,
    now: u128,
) -> (r: SourceRequest<H, E>)
    requires
        old(sync).wf(),
    ensures
        final(sync).wf(),
        final(sync).params_view() == old(sync).params_view(),
        final(sync).source_best_view() == old(sync).source_best_view(),
        final(sync).target_best_view() == old(sync).target_best_view(),
        final(sync).paused_view() == old(sync).paused_view(),
        ({
            let before = old(sync).headers_view().state();
            let entries = before.entries;
            if best_block_number_required {
                r is BestBlockNumber && final(sync).headers_view().state() == before
            } else if fetch_due(before.incomplete, now) {
                let k = before.incomplete[0].0;
                &&& r == SourceRequest::<H, E>::HeaderCompletion(HeaderId(k.0, k.1))
                &&& final(sync).headers_view().state() == crate::headers::QueueState {
                    incomplete: without_key(before.incomplete.drop_first(), k).push((k, Some(now))),
                    ..before
                }
            } else {
                &&& final(sync).headers_view().state() == before
                &&& if count_status(entries, HeaderStatus::Extra) > 0 {
                    let extra = headers_with_status(entries, HeaderStatus::Extra)[0];
                    r matches SourceRequest::HeaderExtra(id, h) && id == extra.spec_id() && h.spec_id()
                        == extra.spec_id()
                } else if old(sync).orphan_header_spec() is Some {
                    let orphan = old(sync).orphan_header_spec()->0;
                    if orphan.spec_parent_id().0 == 0 {
                        r is GenesisOrphan
                    } else {
                        r == SourceRequest::<H, E>::OrphanHeader(orphan.spec_parent_id().1)
                    }
                } else if old(sync).new_header_spec() is Some {
                    r == SourceRequest::<H, E>::NewHeader(old(sync).new_header_spec()->0)
                } else {
                    r is Idle
                }
            }
        }),
{
    if best_block_number_required {
        return SourceRequest::BestBlockNumber;
    }
    match sync.headers_mut().incomplete_header(now) {
        Some(id) => {
            return SourceRequest::HeaderCompletion(id);
        },
        None => {},
    }
    match sync.headers().header(HeaderStatus::Extra) {
        Some(header) => {
            return SourceRequest::HeaderExtra(header.id(), header.clone());
        },
        None => {},
    }
    match sync.select_orphan_header_to_download() {
        Some(header) => {
            let parent_id = header.parent_id();
            if parent_id.0 == 0 {
                return SourceRequest::GenesisOrphan;
            }
            return SourceRequest::OrphanHeader(parent_id.1);
        },
        None => {},
    }
    match sync.select_new_header_to_download() {
        Some(number) => SourceRequest::NewHeader(number),
        None => SourceRequest::Idle,
    }
}

/// Whether the sync progress should be printed again: more than ten seconds
/// (`elapsed`, in nanoseconds) have passed since it was printed, or the best
/// header known to the target node has moved more than ten headers on.
pub fn need_progress_update(elapsed: u128, prev_best_header: Option<u64>, now_best_header: Option<u64>) -> (r:
    bool)
    ensures
        r == (elapsed > 10_000_000_000 || match (prev_best_header, now_best_header) {
            (Some(prev), Some(now)) => now > prev && now - prev > 10,
            _ => false,
        }),
{
    if elapsed > 10_000_000_000 {
        return true;
    }
    match (prev_best_header, now_best_header) {
        (Some(prev), Some(now)) => now.saturating_sub(prev) > 10,
        _ => false,
    }
}

} // verus!
