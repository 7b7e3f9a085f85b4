//! Headers synchronization context. This structure wraps headers queue and is
//! able to choose: which headers to read from the source chain? Which headers
//! to submit to the target chain? The context makes decisions basing on parameters
//! passed using `HeadersSyncParams` structure.

use vstd::prelude::*;

use crate::headers::{count_status, entries_pruned, header_synced_spec, headers_with_status, QueueState, QueuedHeaders};
use crate::sync_types::{HeaderStatus, QueuedHeader};
use crate::utils::HeaderId;

verus! {

/// Common sync params.
#[derive(Debug, Clone)]
pub struct HeadersSyncParams {
    /// Maximal number of headers to pre-download.
    pub max_future_headers_to_download: usize,
    /// Maximal number of active (we believe) submit header transactions.
    pub max_headers_in_submitted_status: usize,
    /// Maximal number of headers in single submit request.
    pub max_headers_in_single_submit: usize,
    /// Maximal total headers size in single submit request.
    pub max_headers_size_in_single_submit: usize,
    /// We only may store and accept (from source node) headers that have
    /// number >= than best_target_header.number - prune_depth.
    pub prune_depth: u32,
    /// Target transactions mode.
    pub target_tx_mode: TargetTransactionMode,
}

/// Return sync parameters for Substrate-to-Substrate headers sync.
pub fn sync_params() -> (r: HeadersSyncParams)
    ensures
        r.max_future_headers_to_download == 32,
        r.max_headers_in_submitted_status == 8,
        r.max_headers_in_single_submit == 1,
        r.max_headers_size_in_single_submit == 1024 * 1024,
        r.prune_depth == 256,
        r.target_tx_mode == TargetTransactionMode::Signed,
{
    HeadersSyncParams {
        max_future_headers_to_download: 32,
        max_headers_in_submitted_status: 8,
        max_headers_in_single_submit: 1,
        max_headers_size_in_single_submit: 1024 * 1024,
        prune_depth: 256,
        target_tx_mode: TargetTransactionMode::Signed,
    }
}

/// Target transaction mode.
#[derive(Debug, Clone, Copy, PartialEq, Eq, Structural)]
pub enum TargetTransactionMode {
    /// Submit new headers using signed transactions.
    Signed,
    /// Submit new headers using unsigned transactions.
    Unsigned,
    /// Submit new headers using signed transactions, but only when we
    /// believe that sync has stalled.
    Backup,
}

/// Size of a header once it is encoded for the target node.
pub trait EncodedSize {
    /// The size that `encoded_size` gives.
    spec fn spec_encoded_size(&self) -> usize;

    /// Estimated size of the encoded header.
    fn encoded_size(&self) -> (r: usize)
        ensures
            r == self.spec_encoded_size(),
    ;
}

/// Number of headers, from the front of `sizes` (their encoded sizes), that one
/// submit request takes: at most `count_limit` and `single_limit` headers, and
/// no more than `max_size` bytes in all, except that the first header is always
/// taken. `i` headers of `total` bytes are taken already.
pub open spec fn submit_count(
    sizes: Seq<usize>,
    count_limit: nat,
    single_limit: nat,
    max_size: nat,
    i: nat,
    total: nat,
) -> nat
    decreases sizes.len() - i,
{
    if i >= sizes.len() || i == count_limit || i == single_limit || (i != 0 && total + sizes[i as int] > max_size) {
        i
    } else {
        submit_count(sizes, count_limit, single_limit, max_size, i + 1, (total + sizes[i as int]) as nat)
    }
}

/// Encoded sizes of the headers.
pub open spec fn encoded_sizes<H: EncodedSize, E>(headers: Seq<QueuedHeader<H, E>>) -> Seq<usize> {
    headers.map_values(|h: QueuedHeader<H, E>| h.spec_header().spec_encoded_size())
}

/// The header number that should be downloaded next, if any (see
/// `HeadersSync::select_new_header_to_download`).
pub open spec fn new_header_to_download(
    source_best: Option<u64>,
    target_best: Option<HeaderId>,
    total_headers: nat,
    max_future_headers: nat,
    best_queued: u64,
    best_synced: u64,
) -> Option<u64> {
    match (source_best, target_best) {
        (Some(source), Some(target)) => {
            if total_headers >= max_future_headers {
                None
            } else if best_queued == 0 && source < target.0 {
                Some(source)
            } else {
                let a = if best_queued < best_synced {
                    best_synced
                } else {
                    best_queued
                };
                let best_downloaded = if a < target.0 {
                    target.0
                } else {
                    a
                };
                if best_downloaded >= source {
                    None
                } else {
                    Some((best_downloaded + 1) as u64)
                }
            }
        },
        _ => None,
    }
}

/// Headers synchronization context.
pub struct HeadersSync<H, E> {
    /// Synchronization parameters.
    params: HeadersSyncParams,
    /// Best header number known to source node.
    source_best_number: Option<u64>,
    /// Best header known to target node.
    target_best_header: Option<HeaderId>,
    /// Headers queue.
    headers: QueuedHeaders<H, E>,
    /// Pause headers submission.
    pause_submit: bool,
}

impl<H, E> HeadersSync<H, E> {
    /// Synchronization parameters.
    pub closed spec fn params_view(self) -> HeadersSyncParams {
        self.params
    }

    /// Best header number known to source node.
    pub closed spec fn source_best_view(self) -> Option<u64> {
        self.source_best_number
    }

    /// Best header known to target node.
    pub closed spec fn target_best_view(self) -> Option<HeaderId> {
        self.target_best_header
    }

    /// Headers queue.
    pub closed spec fn headers_view(self) -> QueuedHeaders<H, E> {
        self.headers
    }

    /// Headers submission is paused.
    pub closed spec fn paused_view(self) -> bool {
        self.pause_submit
    }

    /// Internal consistency.
    pub open spec fn wf(self) -> bool {
        self.headers_view().wf()
    }

    /// The header number that should be downloaded next (see
    /// `new_header_to_download`).
    pub open spec fn new_header_spec(self) -> Option<u64> {
        let entries = self.headers_view().state().entries;
        new_header_to_download(
            self.source_best_view(),
            self.target_best_view(),
            entries.len() as nat,
            self.params_view().max_future_headers_to_download as nat,
            if entries.len() == 0 {
                0
            } else {
                entries.last().header.spec_id().0
            },
            self.headers_view().state().best_synced,
        )
    }

    /// The orphan header whose parent should be downloaded: the oldest orphan,
    /// unless the status of its parent is already known (then we are asking the
    /// target node about it, and should not download it again).
    pub open spec fn orphan_header_spec(self) -> Option<QueuedHeader<H, E>> {
        let entries = self.headers_view().state().entries;
        if count_status(entries, HeaderStatus::Orphan) == 0 {
            None
        } else {
            let orphan = headers_with_status(entries, HeaderStatus::Orphan)[0];
            if self.headers_view().status_spec(orphan.spec_parent_id()) == HeaderStatus::Unknown {
                Some(orphan)
            } else {
                None
            }
        }
    }

    /// Creates new headers synchronizer.
    pub fn new(params: HeadersSyncParams) -> (r: Self)
        ensures
            r.wf(),
            r.params_view() == params,
            r.source_best_view() is None,
            r.target_best_view() is None,
            !r.paused_view(),
            r.headers_view().state().entries.len() == 0,
            r.headers_view().state().synced.len() == 0,
            r.headers_view().state().incomplete.len() == 0,
            r.headers_view().state().completion.len() == 0,
            r.headers_view().state().best_synced == 0,
            r.headers_view().state().prune_border == 0,
    {
        HeadersSync {
            headers: QueuedHeaders::new(),
            params,
            source_best_number: None,
            target_best_header: None,
            pause_submit: false,
        }
    }

    /// Return best header number known to source node.
    pub fn source_best_number(&self) -> (r: Option<u64>)
        ensures
            r == self.source_best_view(),
    {
        self.source_best_number
    }

    /// Best header known to target node.
    pub fn target_best_header(&self) -> (r: Option<HeaderId>)
        ensures
            r == self.target_best_view(),
    {
        self.target_best_header
    }

    /// Returns true if we have synced almost all known headers: the target node
    /// is less than four headers behind the source node (true if the source
    /// best is not known yet, false if only the target best is unknown).
    pub fn is_almost_synced(&self) -> (r: bool)
        ensures
            r == match self.source_best_view() {
                Some(source) => match self.target_best_view() {
                    Some(best) => source - best.0 < 4,
                    None => false,
                },
                None => true,
            },
    {
        match self.source_best_number {
            Some(source_best_number) => match self.target_best_header {
                Some(best) => source_best_number.saturating_sub(best.0) < 4,
                None => false,
            },
            None => true,
        }
    }

    /// Returns synchronization status: best header known to the target node,
    /// and best header number known to the source node.
    pub fn status(&self) -> (r: (Option<HeaderId>, Option<u64>))
        ensures
            r == (self.target_best_view(), self.source_best_view()),
    {
        (self.target_best_header, self.source_best_number)
    }

    /// Returns reference to the headers queue.
    pub fn headers(&self) -> (r: &QueuedHeaders<H, E>)
        ensures
            *r == self.headers_view(),
    {
        &self.headers
    }

    /// Returns mutable reference to the headers queue.
    pub fn headers_mut(&mut self) -> (r: &mut QueuedHeaders<H, E>)
        ensures
            *r == old(self).headers_view(),
            final(self).headers_view() == *final(r),
            final(self).params_view() == old(self).params_view(),
            final(self).source_best_view() == old(self).source_best_view(),
            final(self).target_best_view() == old(self).target_best_view(),
            final(self).paused_view() == old(self).paused_view(),
    {
        &mut self.headers
    }

    /// Select header that needs to be downloaded from the source node (see
    /// `new_header_to_download`).
    pub fn select_new_header_to_download(&self) -> (r: Option<u64>)
        requires
            self.wf(),
        ensures
            r == self.new_header_spec(),
    {
        let source_best_number = match self.source_best_number {
            Some(n) => n,
            None => return None,
        };
        let target_best_header = match self.target_best_header {
            Some(h) => h,
            None => return None,
        };
        let in_memory_headers = self.headers.total_headers();
        if in_memory_headers >= self.params.max_future_headers_to_download {
            return None;
        }
        let best_queued_number = self.headers.best_queued_number();
        if best_queued_number == 0 && source_best_number < target_best_header.0 {
            return Some(source_best_number);
        }
        let best_synced_number = self.headers.best_synced_number();
        let a = if best_queued_number < best_synced_number {
            best_synced_number
        } else {
            best_queued_number
        };
        let best_downloaded_number = if a < target_best_header.0 {
            target_best_header.0
        } else {
            a
        };
        if best_downloaded_number >= source_best_number {
            return None;
        }
        Some(best_downloaded_number + 1)
    }

    /// Select orphan header to download: the oldest orphan, unless the status
    /// of its parent is already known (then we are asking the target node about
    /// it, and should not download it again).
    pub fn select_orphan_header_to_download(&self) -> (r: Option<&QueuedHeader<H, E>>)
        requires
            self.wf(),
        ensures
            r is None <==> self.orphan_header_spec() is None,
            r is Some ==> *(r->0) == self.orphan_header_spec()->0,
    {
        let orphan_header = match self.headers.header(HeaderStatus::Orphan) {
            Some(h) => h,
            None => return None,
        };
        let parent_id = orphan_header.parent_id();
        if self.headers.status(&parent_id) != HeaderStatus::Unknown {
            return None;
        }
        Some(orphan_header)
    }

    /// Receive new best header number from the source node.
    pub fn source_best_header_number_response(&mut self, best_header_number: u64)
        ensures
            final(self).source_best_view() == Some(best_header_number),
            final(self).target_best_view() == old(self).target_best_view(),
            final(self).headers_view() == old(self).headers_view(),
            final(self).params_view() == old(self).params_view(),
            final(self).paused_view() == old(self).paused_view(),
    {
        self.source_best_number = Some(best_header_number);
    }

    /// Receive new best header from the target node.
    /// Returns true if it is different from the previous block known to us.
    ///
    /// A new best header is synced in the queue (see `header_synced_spec`), the
    /// queue is pruned `prune_depth` blocks below it, and submission resumes.
    pub fn target_best_header_response(&mut self, best_header: HeaderId) -> (r: bool)
        requires
            old(self).wf(),
        ensures
            final(self).wf(),
            r == (old(self).target_best_view() != Some(best_header)),
            !r ==> *final(self) == *old(self),
            r ==> {
                let synced = header_synced_spec(old(self).headers_view().state(), best_header);
                let border = if best_header.0 < old(self).params_view().prune_depth {
                    0
                } else {
                    (best_header.0 - old(self).params_view().prune_depth) as u64
                };
                &&& final(self).target_best_view() == Some(best_header)
                &&& !final(self).paused_view()
                &&& final(self).source_best_view() == old(self).source_best_view()
                &&& final(self).params_view() == old(self).params_view()
                &&& pruned(synced, final(self).headers_view().state(), border)
            },
    {
        if self.target_best_header == Some(best_header) {
            return false;
        }
        self.headers.target_best_header_response(&best_header);
        let ghost synced = self.headers.state();
        let border = best_header.0.saturating_sub(self.params.prune_depth as u64);
        self.headers.prune(border);
        self.target_best_header = Some(best_header);
        self.pause_submit = false;
        true
    }

    /// Pause headers submit until best header will be updated on target node.
    pub fn pause_submit(&mut self)
        ensures
            final(self).paused_view(),
            final(self).source_best_view() == old(self).source_best_view(),
            final(self).target_best_view() == old(self).target_best_view(),
            final(self).headers_view() == old(self).headers_view(),
            final(self).params_view() == old(self).params_view(),
    {
        self.pause_submit = true;
    }

    /// Restart synchronization: forget best headers and all queued headers (see
    /// `QueuedHeaders::clear`).
    pub fn restart(&mut self)
        requires
            old(self).wf(),
        ensures
            final(self).wf(),
            final(self).source_best_view() is None,
            final(self).target_best_view() is None,
            !final(self).paused_view(),
            final(self).params_view() == old(self).params_view(),
            final(self).headers_view().state().entries.len() == 0,
            final(self).headers_view().state().synced.len() == 0,
            final(self).headers_view().state().synced_children.len() == 0,
            final(self).headers_view().state().synced_children_keys.len() == 0,
            final(self).headers_view().state().incomplete == old(self).headers_view().state().incomplete,
            final(self).headers_view().state().completion == old(self).headers_view().state().completion,
            final(self).headers_view().state().best_synced == 0,
            final(self).headers_view().state().prune_border == 0,
    {
        self.source_best_number = None;
        self.target_best_header = None;
        self.headers.clear();
        self.pause_submit = false;
    }
}

/// `after` is `before` pruned at `border` (see `QueuedHeaders::prune`).
pub open spec fn pruned<H, E>(before: QueueState<H, E>, after: QueueState<H, E>, border: u64) -> bool {
    &&& after.incomplete == before.incomplete
    &&& after.completion == before.completion
    &&& after.best_synced == before.best_synced
    &&& border <= before.prune_border ==> after == before
    &&& border > before.prune_border ==> {
        &&& after.prune_border == border
        &&& entries_pruned(before.entries, after.entries, border)
        &&& after.synced == crate::headers::ids_from(before.synced, border)
        &&& after.synced_children_keys == crate::headers::ids_from(before.synced_children_keys, border)
        &&& after.synced_children == crate::headers::pairs_from(before.synced_children, border)
    }
}

impl<H: EncodedSize, E> HeadersSync<H, E> {
    /// Number of headers that should be submitted to the target node now: none
    /// while submission is paused, nor in backup mode unless the sync has
    /// stalled, nor when there are already more submitted headers than allowed;
    /// otherwise the oldest ready headers that one submit request takes (see
    /// `submit_count`).
    pub open spec fn submit_len(self, stalled: bool) -> nat {
        let entries = self.headers_view().state().entries;
        let submitted = count_status(entries, HeaderStatus::Submitted);
        let ready = headers_with_status(entries, HeaderStatus::Ready);
        if self.paused_view() || (self.params_view().target_tx_mode == TargetTransactionMode::Backup && !stalled)
            || submitted > self.params_view().max_headers_in_submitted_status {
            0
        } else {
            submit_count(
                encoded_sizes(ready),
                (self.params_view().max_headers_in_submitted_status - submitted) as nat,
                self.params_view().max_headers_in_single_submit as nat,
                self.params_view().max_headers_size_in_single_submit as nat,
                0,
                0,
            )
        }
    }

    /// Select headers that need to be submitted to the target node.
    ///
    /// Nothing is selected while submission is paused, nor in backup mode unless
    /// the sync has stalled, nor when there are already more submitted headers
    /// than allowed. Otherwise the oldest ready headers are selected (see
    /// `submit_count`), and `None` stands for an empty selection.
    pub fn select_headers_to_submit(&self, stalled: bool) -> (r: Option<Vec<&QueuedHeader<H, E>>>)
        requires
            self.wf(),
        ensures
            r is None <==> self.submit_len(stalled) == 0,
            r is Some ==> (r->0)@.len() == self.submit_len(stalled),
            r is Some ==> forall|k: int|
                0 <= k < self.submit_len(stalled) ==> *(#[trigger] (r->0)@[k]) == headers_with_status(
                    self.headers_view().state().entries,
                    HeaderStatus::Ready,
                )[k],
    {
        if self.pause_submit {
            return None;
        }
        if self.params.target_tx_mode == TargetTransactionMode::Backup && !stalled {
            return None;
        }
        let headers_in_submit_status = self.headers.headers_in_status(HeaderStatus::Submitted);
        if headers_in_submit_status > self.params.max_headers_in_submitted_status {
            return None;
        }
        let headers_to_submit_count = self.params.max_headers_in_submitted_status - headers_in_submit_status;
        let max_single = self.params.max_headers_in_single_submit;
        let max_size = self.params.max_headers_size_in_single_submit;
        let ready = match self.headers.headers(HeaderStatus::Ready) {
            Some(ready) => ready,
            None => {
                proof {
                    assert(headers_with_status(self.headers_view().state().entries, HeaderStatus::Ready).len() == 0) by {
                        crate::headers::lemma_headers_with_status_len(self.headers_view().state().entries, HeaderStatus::Ready);
                    }
                }
                return None;
            },
        };
        let ghost ready_seq = headers_with_status(self.headers_view().state().entries, HeaderStatus::Ready);
        let ghost sizes = encoded_sizes(ready_seq);
        let mut selected: Vec<&QueuedHeader<H, E>> = Vec::new();
        let mut total_size: usize = 0;
        let mut total_headers: usize = 0;
        let mut done = false;
        while !done && total_headers < ready.len()
            invariant
                ready@.len() == ready_seq.len(),
                forall|k: int| 0 <= k < ready@.len() ==> *(#[trigger] ready@[k]) == ready_seq[k],
                sizes == encoded_sizes(ready_seq),
                total_headers <= ready@.len(),
                selected@.len() == total_headers,
                forall|k: int| 0 <= k < total_headers ==> *(#[trigger] selected@[k]) == ready_seq[k],
                total_headers == 0 ==> total_size == 0,
                total_headers > 0 ==> total_size <= max_size || total_headers == 1,
                !done ==> submit_count(sizes, headers_to_submit_count as nat, max_single as nat, max_size as nat, 0, 0)
                    == submit_count(sizes, headers_to_submit_count as nat, max_single as nat, max_size as nat, total_headers as nat, total_size as nat),
                done ==> submit_count(sizes, headers_to_submit_count as nat, max_single as nat, max_size as nat, 0, 0)
                    == total_headers,
            decreases ready@.len() - total_headers, (if done { 0int } else { 1int }),
        {
            if total_headers == headers_to_submit_count || total_headers == max_single {
                done = true;
            } else {
                let header = ready[total_headers];
                let encoded_size = header.header().encoded_size();
                proof {
                    assert(sizes[total_headers as int] == encoded_size);
                }
                if total_headers != 0 && (total_size > max_size || encoded_size > max_size - total_size) {
                    done = true;
                } else {
                    total_size = total_size + encoded_size;
                    total_headers = total_headers + 1;
                    selected.push(header);
                }
            }
        }
        proof {
            if !done {
                assert(submit_count(sizes, headers_to_submit_count as nat, max_single as nat, max_size as nat, total_headers as nat, total_size as nat) == total_headers);
            }
        }
        if selected.len() == 0 {
            None
        } else {
            Some(selected)
        }
    }
}

/// Sum of the first `n` sizes.
pub open spec fn sizes_sum(sizes: Seq<usize>, n: nat) -> nat
    decreases n,
{
    if n == 0 || n > sizes.len() {
        0
    } else {
        (sizes_sum(sizes, (n - 1) as nat) + sizes[n - 1]) as nat
    }
}

/// `submit_count` takes no more headers than there are, nor than both count
/// limits allow, and more than one header only if they fit in `max_size`.
proof fn lemma_submit_count_bounds(
    sizes: Seq<usize>,
    count_limit: nat,
    single_limit: nat,
    max_size: nat,
    i: nat,
    total: nat,
)
    requires
        i <= sizes.len(),
        i <= count_limit,
        i <= single_limit,
        total == sizes_sum(sizes, i),
        i >= 2 ==> total <= max_size,
    ensures
        ({
            let n = submit_count(sizes, count_limit, single_limit, max_size, i, total);
            &&& i <= n <= sizes.len()
            &&& n <= count_limit
            &&& n <= single_limit
            &&& n >= 2 ==> sizes_sum(sizes, n) <= max_size
        }),
    decreases sizes.len() - i,
{
    if i >= sizes.len() || i == count_limit || i == single_limit || (i != 0 && total + sizes[i as int] > max_size) {
    } else {
        lemma_submit_count_bounds(sizes, count_limit, single_limit, max_size, i + 1, (total + sizes[i as int]) as nat);
    }
}

impl<H: EncodedSize, E> HeadersSync<H, E> {
    /// A submit request never exceeds the limits: it takes no more than
    /// `max_headers_in_single_submit` ready headers, leaves no more than
    /// `max_headers_in_submitted_status` headers submitted, and carries more than
    /// one header only if they fit in `max_headers_size_in_single_submit` bytes.
    pub proof fn lemma_submit_within_limits(self, stalled: bool)
        requires
            self.wf(),
        ensures
            ({
                let entries = self.headers_view().state().entries;
                let n = self.submit_len(stalled);
                let ready = headers_with_status(entries, HeaderStatus::Ready);
                &&& n <= self.params_view().max_headers_in_single_submit
                &&& n <= ready.len()
                &&& n > 0 ==> count_status(entries, HeaderStatus::Submitted) + n
                    <= self.params_view().max_headers_in_submitted_status
                &&& n >= 2 ==> sizes_sum(encoded_sizes(ready), n) <= self.params_view().max_headers_size_in_single_submit
            }),
    {
        let entries = self.headers_view().state().entries;
        let submitted = count_status(entries, HeaderStatus::Submitted);
        let ready = headers_with_status(entries, HeaderStatus::Ready);
        if !(self.paused_view() || (self.params_view().target_tx_mode == TargetTransactionMode::Backup && !stalled)
            || submitted > self.params_view().max_headers_in_submitted_status) {
            lemma_submit_count_bounds(
                encoded_sizes(ready),
                (self.params_view().max_headers_in_submitted_status - submitted) as nat,
                self.params_view().max_headers_in_single_submit as nat,
                self.params_view().max_headers_size_in_single_submit as nat,
                0,
                0,
            );
        }
    }
}

impl<H, E> HeadersSync<H, E> {
    /// Which new header the sync asks the source node for. Nothing is asked
    /// before both best headers are known, nor while the queue is full. The
    /// answer is never above the source's best header. While the queue holds a
    /// header above genesis, or the source is not behind the target, the answer
    /// is the header just above the best one known (queued, synced or at the
    /// target), and there is none once that best one reaches the source's best.
    /// Only while the queue holds nothing above genesis and the target is ahead
    /// of the source is the source's best header itself asked for (a reorg).
    pub proof fn lemma_new_header_choice(self)
        requires
            self.wf(),
        ensures
            ({
                let entries = self.headers_view().state().entries;
                let synced = self.headers_view().state().best_synced;
                let max = self.params_view().max_future_headers_to_download;
                let r = self.new_header_spec();
                &&& (self.source_best_view() is None || self.target_best_view() is None || entries.len() >= max)
                    ==> r is None
                &&& match r {
                    Some(n) => self.source_best_view() matches Some(s) && n <= s,
                    None => true,
                }
                &&& match (self.source_best_view(), self.target_best_view()) {
                    (Some(s), Some(t)) => {
                        let queued_above_genesis = exists|i: int|
                            0 <= i < entries.len() && #[trigger] entries[i].header.spec_id().0 > 0;
                        let known_reaches_source = s <= t.0 || s <= synced || exists|i: int|
                            0 <= i < entries.len() && #[trigger] entries[i].header.spec_id().0 >= s;
                        let reorg = !queued_above_genesis && s < t.0;
                        &&& (entries.len() < max && reorg) ==> r == Some(s)
                        &&& (!reorg && known_reaches_source) ==> r is None
                        &&& (entries.len() < max && !reorg && !known_reaches_source) ==> r is Some
                        &&& match r {
                            Some(n) => !reorg ==> {
                                &&& n > t.0
                                &&& n > synced
                                &&& forall|i: int|
                                    0 <= i < entries.len() ==> #[trigger] entries[i].header.spec_id().0 < n
                                &&& (n - 1 == t.0 || n - 1 == synced || exists|i: int|
                                    0 <= i < entries.len() && #[trigger] entries[i].header.spec_id().0 == n - 1)
                            },
                            None => true,
                        }
                    },
                    _ => true,
                }
            }),
    {
        let entries = self.headers_view().state().entries;
        if entries.len() > 0 {
            let last = entries.len() - 1;
            assert forall|i: int| 0 <= i < entries.len() implies #[trigger] entries[i].header.spec_id().0
                <= entries[last].header.spec_id().0 by {
                assert(crate::headers::entry_id(entries[i]).0 <= crate::headers::entry_id(entries[last]).0);
            }
            assert(entries.last() == entries[last]);
        }
    }
}

} // verus!
