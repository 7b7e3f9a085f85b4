//! Maintain procedure of the headers synchronization: justifications that the
//! source node sends on its own may finalize headers at the target node, or
//! complete the headers that wait for completion data.

use vstd::prelude::*;

use std::collections::VecDeque;

use crate::headers::{key, QueuedHeaders};
use crate::linked_map::keys_of;
use crate::sync::HeadersSync;
use crate::sync_types::HeaderStatus;
use crate::utils::HeaderId;

verus! {

/// Clean queue of all justifications that are justifying already finalized
/// blocks: those at the front of the queue, up to the first one for a header
/// above the best finalized one.
pub fn remove_obsolete(queue: &mut VecDeque<(HeaderId, Vec<u8>)>, best_finalized: HeaderId)
    ensures
        ({
            let before = old(queue)@;
            let after = final(queue)@;
            let k = before.len() - after.len();
            &&& after.len() <= before.len()
            &&& after == before.skip(k)
            &&& forall|j: int| 0 <= j < k ==> (#[trigger] before[j]).0.0 <= best_finalized.0
            &&& after.len() > 0 ==> (after[0].0).0 > best_finalized.0
        }),
{
    let ghost before = queue@;
    while queue.len() > 0 && queue[0].0.0 <= best_finalized.0
        invariant
            before == old(queue)@,
            queue@.len() <= before.len(),
            queue@ == before.skip(before.len() - queue@.len()),
            forall|j: int| 0 <= j < before.len() - queue@.len() ==> (#[trigger] before[j]).0.0 <= best_finalized.0,
        decreases queue@.len(),
    {
        let ghost k = before.len() - queue@.len();
        proof {
            assert(queue@[0] == before[k]);
        }
        queue.pop_front();
        proof {
            assert(queue@ =~= before.skip(before.len() - queue@.len()));
        }
    }
}

/// The justification is for a header that waits for completion data.
pub open spec fn requires_completion<H, E>(headers: QueuedHeaders<H, E>, target: HeaderId) -> bool {
    keys_of(headers.incomplete_view()).contains(key(target))
}

/// The justification is for a header that the target node knows already, and
/// that does not wait for completion data.
pub open spec fn finalizes_synced<H, E>(headers: QueuedHeaders<H, E>, target: HeaderId) -> bool {
    !requires_completion(headers, target) && headers.status_spec(target) == HeaderStatus::Synced
}

/// The first `k` justifications of the queue are for synced headers, and the
/// next one, if any, is not.
pub open spec fn synced_run<H, E>(headers: QueuedHeaders<H, E>, queue: Seq<(HeaderId, Vec<u8>)>, k: int) -> bool {
    &&& 0 <= k <= queue.len()
    &&& forall|j: int| 0 <= j < k ==> finalizes_synced(headers, (#[trigger] queue[j]).0)
    &&& k < queue.len() ==> !finalizes_synced(headers, queue[k].0)
}

/// Select appropriate justification that would improve best finalized block on target node.
///
/// The justifications for synced headers at the front of the queue are taken
/// (the last of them is selected), up to the first other one. If that one
/// completes a header that waits for it, it is handed to the queue as
/// completion data (received at `now`) and nothing is selected: previous
/// justifications need not be submitted any more, and later ones have to wait.
/// Otherwise it goes back to the end of the queue.
pub fn select_justification<H, E>(
    queue: &mut VecDeque<(HeaderId, Vec<u8>)>,
    sync: &mut HeadersSync<H, E>,
    now: u128,
) -> (r: Option<(HeaderId, Vec<u8>)>)
    requires
        old(sync).wf(),
    ensures
        final(sync).wf(),
        final(sync).params_view() == old(sync).params_view(),
        final(sync).source_best_view() == old(sync).source_best_view(),
        final(sync).target_best_view() == old(sync).target_best_view(),
        final(sync).paused_view() == old(sync).paused_view(),
        ({
            let q = old(queue)@;
            let headers = old(sync).headers_view();
            exists|k: int|
                #[trigger] synced_run(headers, q, k) && if k == q.len() {
                    &&& final(queue)@.len() == 0
                    &&& r == if k > 0 {
                        Some(q[k - 1])
                    } else {
                        None::<(HeaderId, Vec<u8>)>
                    }
                    &&& final(sync).headers_view().state() == headers.state()
                } else if requires_completion(headers, q[k].0) {
                    &&& final(queue)@ == q.skip(k + 1)
                    &&& r is None
                    &&& final(sync).headers_view().entries_view() == headers.entries_view()
                    &&& final(sync).headers_view().synced_view() == headers.synced_view()
                    &&& final(sync).headers_view().incomplete_view() == crate::linked_map::without_key(
                        headers.incomplete_view(),
                        key(q[k].0),
                    ).push((key(q[k].0), Some(now)))
                    &&& final(sync).headers_view().completion_view() == crate::linked_map::without_key(
                        headers.completion_view(),
                        key(q[k].0),
                    ).push((key(q[k].0), q[k].1@))
                } else {
                    &&& final(queue)@ == q.skip(k + 1).push(q[k])
                    &&& r == if k > 0 {
                        Some(q[k - 1])
                    } else {
                        None::<(HeaderId, Vec<u8>)>
                    }
                    &&& final(sync).headers_view().state() == headers.state()
                }
        }),
{
    let ghost q = queue@;
    let ghost headers = sync.headers_view();
    let mut selected_justification: Option<(HeaderId, Vec<u8>)> = None;
    loop
        invariant_except_break
            queue@.len() <= q.len(),
            queue@ == q.skip(q.len() - queue@.len()),
            forall|j: int| 0 <= j < q.len() - queue@.len() ==> finalizes_synced(headers, (#[trigger] q[j]).0),
            selected_justification == if queue@.len() < q.len() {
                Some(q[q.len() - queue@.len() - 1])
            } else {
                None::<(HeaderId, Vec<u8>)>
            },
            *sync == *old(sync),
        invariant
            q == old(queue)@,
            headers == old(sync).headers_view(),
            old(sync).wf(),
        ensures
            sync.wf(),
            sync.params_view() == old(sync).params_view(),
            sync.source_best_view() == old(sync).source_best_view(),
            sync.target_best_view() == old(sync).target_best_view(),
            sync.paused_view() == old(sync).paused_view(),
            exists|k: int|
                #[trigger] synced_run(headers, q, k) && if k == q.len() {
                    &&& queue@.len() == 0
                    &&& selected_justification == if k > 0 {
                        Some(q[k - 1])
                    } else {
                        None::<(HeaderId, Vec<u8>)>
                    }
                    &&& sync.headers_view().state() == headers.state()
                } else if requires_completion(headers, q[k].0) {
                    &&& queue@ == q.skip(k + 1)
                    &&& selected_justification is None
                    &&& sync.headers_view().entries_view() == headers.entries_view()
                    &&& sync.headers_view().synced_view() == headers.synced_view()
                    &&& sync.headers_view().incomplete_view() == crate::linked_map::without_key(
                        headers.incomplete_view(),
                        key(q[k].0),
                    ).push((key(q[k].0), Some(now)))
                    &&& sync.headers_view().completion_view() == crate::linked_map::without_key(
                        headers.completion_view(),
                        key(q[k].0),
                    ).push((key(q[k].0), q[k].1@))
                } else {
                    &&& queue@ == q.skip(k + 1).push(q[k])
                    &&& selected_justification == if k > 0 {
                        Some(q[k - 1])
                    } else {
                        None::<(HeaderId, Vec<u8>)>
                    }
                    &&& sync.headers_view().state() == headers.state()
                },
        decreases queue@.len(),
    {
        let ghost k = q.len() - queue@.len();
        match queue.pop_front() {
            None => {
                proof {
                    assert(synced_run(headers, q, k));
                }
                break;
            },
            Some((target, justification)) => {
                proof {
                    assert(q[k] == (target, justification));
                }
                if sync.headers().requires_completion_data(&target) {
                    let ghost data = justification@;
                    sync.headers_mut().completion_response(&target, Some(justification), now);
                    selected_justification = None;
                    proof {
                        assert(synced_run(headers, q, k));
                        assert(queue@ =~= q.skip(k + 1));
                    }
                    break;
                }
                if sync.headers().status(&target) == HeaderStatus::Synced {
                    selected_justification = Some((target, justification));
                    proof {
                        assert(queue@ =~= q.skip(q.len() - queue@.len()));
                    }
                } else {
                    queue.push_back((target, justification));
                    proof {
                        assert(synced_run(headers, q, k));
                        assert(queue@ =~= q.skip(k + 1).push(q[k]));
                    }
                    break;
                }
            },
        }
    }
    selected_justification
}

} // verus!
