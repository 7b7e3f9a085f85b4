//! Finality proofs synchronization: the loop reads all missing headers and
//! their finality proofs from the source client. The proof for the best
//! possible header is then submitted to the target node. The only exception is
//! the mandatory headers, which we always submit to the target node. For such
//! headers, we assume that the persistent proof either exists, or will
//! eventually become available.

use vstd::prelude::*;

use crate::relay_loop::RECONNECT_DELAY;
use crate::utils::{
    one_more_delay, retry_delay, retry_delay_spec, FailedClient, MaybeConnectionError, RetryBackoff,
    INITIAL_RETRY_INTERVAL,
};

verus! {

/// Finality proof synchronization loop parameters.
#[derive(Debug, Clone)]
pub struct FinalitySyncParams {
    /// Interval (in nanoseconds) at which we check updates on both clients. Normally should be larger than
    /// `min(source_block_time, target_block_time)`.
    ///
    /// This parameter may be used to limit transactions rate. Increase the value && you'll get
    /// infrequent updates => sparse headers => potential slow down of bridge applications, but pallet storage
    /// won't be super large. Decrease the value to near `source_block_time` and you'll get
    /// transaction for (almost) every block of the source chain => all source headers will be known
    /// to the target chain => bridge applications will run faster, but pallet storage may explode
    /// (but if pruning is there, then it's fine).
    pub tick: u128,
    /// Number of finality proofs to keep in internal buffer between loop wakeups.
    ///
    /// While in "major syncing" state, we still read finality proofs from the stream. They're stored
    /// in the internal buffer between loop wakeups. When we're close to the tip of the chain, we may
    /// meet finality delays if headers are not finalized frequently. So instead of waiting for next
    /// finality proof to appear in the stream, we may use existing proof from that buffer.
    pub recent_finality_proofs_limit: usize,
    /// Timeout (in nanoseconds) before we treat our transactions as lost and restart the whole sync process.
    pub stall_timeout: u128,
}

/// Header that we're receiving from source node.
pub trait SourceHeader: Sized {
    /// What `number` returns.
    spec fn spec_number(&self) -> u64;

    /// What `is_mandatory` returns.
    spec fn spec_is_mandatory(&self) -> bool;

    /// Returns number of header.
    fn number(&self) -> (r: u64)
        ensures
            r == self.spec_number(),
    ;

    /// Returns true if this header needs to be submitted to target node.
    fn is_mandatory(&self) -> (r: bool)
        ensures
            r == self.spec_is_mandatory(),
    ;
}

/// Error that may happen inside finality synchronization loop.
#[derive(Debug)]
pub enum Error<SourceError, TargetError> {
    /// Source client request has failed with given error.
    Source(SourceError),
    /// Target client request has failed with given error.
    Target(TargetError),
    /// Finality proof for mandatory header is missing from the source node.
    MissingMandatoryFinalityProof(u64),
    /// The synchronization has stalled.
    Stalled,
}

impl<SourceError: MaybeConnectionError, TargetError: MaybeConnectionError> Error<SourceError, TargetError> {
    /// The client that has to reconnect after this error, if any: the source or
    /// the target after their connection errors, both after a stall.
    pub fn fail_if_connection_error(&self) -> (r: Result<(), FailedClient>)
        ensures
            r == match self {
                Error::Source(e) => if e.spec_is_connection_error() {
                    Err(FailedClient::Source)
                } else {
                    Ok(())
                },
                Error::Target(e) => if e.spec_is_connection_error() {
                    Err(FailedClient::Target)
                } else {
                    Ok(())
                },
                Error::Stalled => Err(FailedClient::Both),
                Error::MissingMandatoryFinalityProof(_) => Ok(()),
            },
    {
        match self {
            Error::Source(error) => if error.is_connection_error() {
                Err(FailedClient::Source)
            } else {
                Ok(())
            },
            Error::Target(error) => if error.is_connection_error() {
                Err(FailedClient::Target)
            } else {
                Ok(())
            },
            Error::Stalled => Err(FailedClient::Both),
            Error::MissingMandatoryFinalityProof(_) => Ok(()),
        }
    }
}

/// The delay (in nanoseconds) before the next loop iteration: the tick after a
/// successful iteration (the backoff is reset then), and the next backoff delay,
/// or `RECONNECT_DELAY` if the backoff gives none, after a failed one. After a
/// connection error or a stall, the client that has to reconnect is returned
/// and the backoff is left as it is.
pub fn next_tick<SourceError: MaybeConnectionError, TargetError: MaybeConnectionError>(
    iteration_error: Option<&Error<SourceError, TargetError>>,
    retry_backoff: &mut RetryBackoff,
    tick: u128,
) -> (r: Result<u128, FailedClient>)
    ensures
        final(retry_backoff).policy_view() == old(retry_backoff).policy_view(),
        old(retry_backoff).interval_bounded() ==> final(retry_backoff).interval_bounded(),
        iteration_error is None ==> {
            &&& r == Ok::<u128, FailedClient>(tick)
            &&& final(retry_backoff).interval_view() == INITIAL_RETRY_INTERVAL
            &&& final(retry_backoff).delays_since_reset_view() == 0
            &&& final(retry_backoff).last_delay_view() == old(retry_backoff).last_delay_view()
        },
        iteration_error matches Some(error) ==> match error.fail_if_connection_error_spec() {
            Err(failed_client) => r == Err::<u128, FailedClient>(failed_client) && *final(retry_backoff) == *old(retry_backoff),
            Ok(()) => {
                &&& r == Ok::<u128, FailedClient>(
                    retry_delay_spec(final(retry_backoff).last_delay_view(), RECONNECT_DELAY),
                )
                &&& final(retry_backoff).delays_since_reset_view() == one_more_delay(
                    old(retry_backoff).delays_since_reset_view(),
                )
                &&& old(retry_backoff).advanced(*final(retry_backoff), final(retry_backoff).last_delay_view())
            },
        },
{
    match iteration_error {
        None => {
            retry_backoff.reset();
            Ok(tick)
        },
        Some(error) => {
            match error.fail_if_connection_error() {
                Err(failed_client) => Err(failed_client),
                Ok(()) => {
                    let next_backoff = retry_backoff.next_delay();
                    Ok(retry_delay(next_backoff, RECONNECT_DELAY))
                },
            }
        },
    }
}

impl<SourceError: MaybeConnectionError, TargetError: MaybeConnectionError> Error<SourceError, TargetError> {
    /// What `fail_if_connection_error` returns.
    pub open spec fn fail_if_connection_error_spec(&self) -> Result<(), FailedClient> {
        match self {
            Error::Source(e) => if e.spec_is_connection_error() {
                Err(FailedClient::Source)
            } else {
                Ok(())
            },
            Error::Target(e) => if e.spec_is_connection_error() {
                Err(FailedClient::Target)
            } else {
                Ok(())
            },
            Error::Stalled => Err(FailedClient::Both),
            Error::MissingMandatoryFinalityProof(_) => Ok(()),
        }
    }
}

/// What the loop knows of the last transaction that it has submitted.
#[derive(Debug, Clone, Copy, PartialEq, Eq, Structural)]
pub enum TransactionState {
    /// The transaction has been mined: the loop goes on.
    Mined,
    /// The transaction is still waited for.
    Pending,
    /// We have waited for the transaction for too long: the sync has stalled.
    Stalled,
}

/// State of the last submitted transaction, of the header with the given number,
/// submitted `elapsed` nanoseconds ago: mined once the target knows that header,
/// stalled once `stall_timeout` has passed, pending otherwise.
pub fn last_transaction_state(
    best_number_at_target: u64,
    submitted_header_number: u64,
    elapsed: u128,
    stall_timeout: u128,
) -> (r: TransactionState)
    ensures
        r == if best_number_at_target >= submitted_header_number {
            TransactionState::Mined
        } else if elapsed > stall_timeout {
            TransactionState::Stalled
        } else {
            TransactionState::Pending
        },
{
    if best_number_at_target >= submitted_header_number {
        TransactionState::Mined
    } else if elapsed > stall_timeout {
        TransactionState::Stalled
    } else {
        TransactionState::Pending
    }
}

/// Whether the sync progress should be printed again: more than ten seconds
/// (`elapsed`, in nanoseconds) have passed since it was printed, the best number
/// at target was never printed, or it has moved more than ten headers on.
pub fn need_progress_update(elapsed: u128, prev_best_number_at_target: Option<u64>, best_number_at_target: u64) -> (r:
    bool)
    ensures
        r == (elapsed > 10_000_000_000 || match prev_best_number_at_target {
            Some(prev) => best_number_at_target > prev && best_number_at_target - prev > 10,
            None => true,
        }),
{
    if elapsed > 10_000_000_000 {
        return true;
    }
    match prev_best_number_at_target {
        Some(prev) => best_number_at_target.saturating_sub(prev) > 10,
        None => true,
    }
}

/// The numbers of the headers increase one by one.
pub open spec fn numbers_consecutive<H: SourceHeader>(headers: Seq<H>) -> bool {
    forall|i: int| 0 <= i < headers.len() ==> (#[trigger] headers[i]).spec_number() == headers[0].spec_number() + i
}

/// The proofs are ordered by the number of the header that they finalize.
pub open spec fn proofs_ordered<F>(proofs: Seq<(u64, F)>) -> bool {
    forall|i: int, j: int| 0 <= i < j < proofs.len() ==> (#[trigger] proofs[i]).0 <= (#[trigger] proofs[j]).0
}

/// `k` is the position of `number` among the proofs: the proofs before it are
/// for lower numbers, the others are not.
pub open spec fn is_position<F>(proofs: Seq<(u64, F)>, number: u64, k: int) -> bool {
    &&& 0 <= k <= proofs.len()
    &&& forall|j: int| 0 <= j < k ==> (#[trigger] proofs[j]).0 < number
    &&& forall|j: int| k <= j < proofs.len() ==> (#[trigger] proofs[j]).0 >= number
}

/// The position of `number` among ordered proofs (see `is_position`).
pub open spec fn position<F>(proofs: Seq<(u64, F)>, number: u64) -> int {
    choose|k: int| is_position(proofs, number, k)
}

/// There is one position at most.
proof fn lemma_position_unique<F>(proofs: Seq<(u64, F)>, number: u64, k: int)
    requires
        is_position(proofs, number, k),
    ensures
        position(proofs, number) == k,
{
    let p = position(proofs, number);
    assert(is_position(proofs, number, p));
    if p < k {
        assert(proofs[p].0 < number);
    }
    if k < p {
        assert(proofs[k].0 < number);
    }
}

/// Position of `number` among ordered proofs.
fn find_position<F>(proofs: &Vec<(u64, F)>, number: u64) -> (k: usize)
    requires
        proofs_ordered(proofs@),
    ensures
        k == position(proofs@, number),
        is_position(proofs@, number, k as int),
{
    let mut lo: usize = 0;
    let mut hi: usize = proofs.len();
    while lo < hi
        invariant
            lo <= hi <= proofs@.len(),
            proofs_ordered(proofs@),
            forall|j: int| 0 <= j < lo ==> (#[trigger] proofs@[j]).0 < number,
            forall|j: int| hi <= j < proofs@.len() ==> (#[trigger] proofs@[j]).0 >= number,
        decreases hi - lo,
    {
        let mid = lo + (hi - lo) / 2;
        if proofs[mid].0 < number {
            lo = mid + 1;
        } else {
            hi = mid;
        }
    }
    proof {
        lemma_position_unique(proofs@, number, lo as int);
    }
    lo
}

/// Index of the proof that `select_better_recent_finality_proof` picks for the
/// headers up to `end`: the proof for `end` if there is one, else the last
/// proof before it, else the first proof.
pub open spec fn recent_proof_index<F>(proofs: Seq<(u64, F)>, end: u64) -> int {
    let k = position(proofs, end);
    if k < proofs.len() && proofs[k].0 == end {
        k
    } else if k > 0 {
        k - 1
    } else {
        0
    }
}

/// Try to select better header and its proof, given finality proofs that we
/// have recently read from the stream.
///
/// Nothing changes unless both the unjustified headers and the recent proofs
/// are known. Otherwise the proof at `recent_proof_index` for the last number
/// of both ranges is taken if its number is in both ranges: the header with
/// that number leaves the unjustified headers (the last one takes its place),
/// and both are returned.
pub fn select_better_recent_finality_proof<H: SourceHeader, F: Clone>(
    recent_finality_proofs: &Vec<(u64, F)>,
    unjustified_headers: &mut Vec<H>,
    selected_finality_proof: Option<(H, F)>,
) -> (r: Option<(H, F)>)
    requires
        proofs_ordered(recent_finality_proofs@),
        numbers_consecutive(old(unjustified_headers)@),
    ensures
        ({
            let proofs = recent_finality_proofs@;
            let headers = old(unjustified_headers)@;
            if headers.len() == 0 || proofs.len() == 0 {
                r == selected_finality_proof && final(unjustified_headers)@ == headers
            } else {
                let begin = if headers[0].spec_number() > proofs[0].0 {
                    headers[0].spec_number()
                } else {
                    proofs[0].0
                };
                let end = if headers.last().spec_number() < proofs.last().0 {
                    headers.last().spec_number()
                } else {
                    proofs.last().0
                };
                let index = recent_proof_index(proofs, end);
                let number = proofs[index].0;
                if !(begin <= number <= end) {
                    r == selected_finality_proof && final(unjustified_headers)@ == headers
                } else {
                    let at = number - headers[0].spec_number();
                    &&& r matches Some((header, proof))
                    &&& header == headers[at]
                    &&& cloned(proofs[index].1, proof)
                    &&& final(unjustified_headers)@ == headers.update(at, headers.last()).drop_last()
                }
            }
        }),
{
    let len = unjustified_headers.len();
    let proofs_len = recent_finality_proofs.len();
    if len == 0 || proofs_len == 0 {
        return selected_finality_proof;
    }
    let unjustified_range_begin = unjustified_headers[0].number();
    let unjustified_range_end = unjustified_headers[len - 1].number();
    let buffered_range_begin = recent_finality_proofs[0].0;
    let buffered_range_end = recent_finality_proofs[proofs_len - 1].0;
    let intersection_begin = if unjustified_range_begin > buffered_range_begin {
        unjustified_range_begin
    } else {
        buffered_range_begin
    };
    let intersection_end = if unjustified_range_end < buffered_range_end {
        unjustified_range_end
    } else {
        buffered_range_end
    };
    let k = find_position(recent_finality_proofs, intersection_end);
    let selected_finality_proof_index = if k < proofs_len && recent_finality_proofs[k].0 == intersection_end {
        k
    } else if k > 0 {
        k - 1
    } else {
        0
    };
    let selected_header_number = recent_finality_proofs[selected_finality_proof_index].0;
    if !(intersection_begin <= selected_header_number && selected_header_number <= intersection_end) {
        return selected_finality_proof;
    }
    proof {
        let headers = unjustified_headers@;
        assert(headers.last() == headers[len - 1]);
        assert(headers[len - 1].spec_number() == headers[0].spec_number() + len - 1);
    }
    let selected_header_position = (selected_header_number - unjustified_range_begin) as usize;
    let selected_header = unjustified_headers.swap_remove(selected_header_position);
    let finality_proof = recent_finality_proofs[selected_finality_proof_index].1.clone();
    Some((selected_header, finality_proof))
}

/// Remove obsolete recent finality proofs: those for headers up to the
/// justified one (see `position`; a proof for the justified header itself goes
/// too), and then the oldest ones beyond the limit.
pub fn prune_recent_finality_proofs<F>(
    justified_header_number: u64,
    recent_finality_proofs: &mut Vec<(u64, F)>,
    recent_finality_proofs_limit: usize,
)
    requires
        proofs_ordered(old(recent_finality_proofs)@),
    ensures
        ({
            let proofs = old(recent_finality_proofs)@;
            let k = position(proofs, justified_header_number);
            let start = if k < proofs.len() && proofs[k].0 == justified_header_number {
                k + 1
            } else {
                k
            };
            let kept = proofs.skip(start);
            let split = if kept.len() > recent_finality_proofs_limit {
                kept.len() - recent_finality_proofs_limit
            } else {
                0
            };
            final(recent_finality_proofs)@ == kept.skip(split)
        }),
        proofs_ordered(final(recent_finality_proofs)@),
{
    let ghost proofs = recent_finality_proofs@;
    let k = find_position(recent_finality_proofs, justified_header_number);
    let start = if k < recent_finality_proofs.len() && recent_finality_proofs[k].0 == justified_header_number {
        k + 1
    } else {
        k
    };
    let mut kept = recent_finality_proofs.split_off(start);
    let len = kept.len();
    let split_index = if len > recent_finality_proofs_limit {
        len - recent_finality_proofs_limit
    } else {
        0
    };
    let newest = kept.split_off(split_index);
    *recent_finality_proofs = newest;
    proof {
        assert(proofs.skip(start as int) =~= proofs.subrange(start as int, proofs.len() as int));
        let kept_seq = proofs.skip(start as int);
        assert(recent_finality_proofs@ =~= kept_seq.skip(split_index as int));
        assert forall|i: int, j: int| 0 <= i < j < recent_finality_proofs@.len() implies (
        #[trigger] recent_finality_proofs@[i]).0 <= (#[trigger] recent_finality_proofs@[j]).0 by {
            assert(recent_finality_proofs@[i] == proofs[start + split_index + i]);
            assert(recent_finality_proofs@[j] == proofs[start + split_index + j]);
        }
    }
}

/// Finality proof that has been selected among the missing headers.
#[derive(Debug)]
pub enum SelectedFinalityProof<H, F> {
    /// Mandatory header and its proof has been selected. We shall submit proof for this header.
    Mandatory(H, F),
    /// Regular header and its proof has been selected. We may submit this proof, or proof for
    /// some better header.
    Regular(Vec<H>, H, F),
    /// We haven't found any missing header with persistent proof at the target client.
    NoPersistentProof(Vec<H>),
}

/// What reading a missing header gives.
#[derive(Debug)]
pub enum MissingHeaderOutcome<H, F> {
    /// Read the next missing header, if any.
    Continue,
    /// The header is mandatory and has a persistent proof: it is selected.
    Mandatory(H, F),
    /// The header with the given number is mandatory, but its proof is missing.
    MissingMandatoryFinalityProof(u64),
}

/// Reads missing headers and their persistent finality proofs from the source
/// client, from the header after the best one known to the target node up to
/// the best finalized one at the source node.
///
/// If we have found some header with known proof, it is selected; unless we
/// have found mandatory header, the missing headers after the last selected
/// one are collected.
#[derive(Debug)]
pub struct MissingHeadersReader<H, F> {
    next_header_number: u64,
    best_number_at_source: u64,
    unjustified_headers: Vec<H>,
    selected_finality_proof: Option<(H, F)>,
}

impl<H: SourceHeader, F> MissingHeadersReader<H, F> {
    /// Number of the next header to read.
    pub closed spec fn next_view(&self) -> u64 {
        self.next_header_number
    }

    /// Best finalized number at the source node.
    pub closed spec fn source_view(&self) -> u64 {
        self.best_number_at_source
    }

    /// Missing headers after the last one with a persistent proof.
    pub closed spec fn unjustified_view(&self) -> Seq<H> {
        self.unjustified_headers@
    }

    /// Last header with a persistent proof, and the proof.
    pub closed spec fn selected_view(&self) -> Option<(H, F)> {
        self.selected_finality_proof
    }

    /// The unjustified headers are those just before the next one to read.
    pub open spec fn wf(&self) -> bool {
        &&& self.source_view() < u64::MAX
        &&& self.unjustified_view().len() < self.next_view()
        &&& forall|i: int|
            0 <= i < self.unjustified_view().len() ==> (#[trigger] self.unjustified_view()[i]).spec_number()
                == self.next_view() - self.unjustified_view().len() + i
    }

    /// Starts reading the headers after `best_number_at_target`, up to
    /// `best_number_at_source`.
    pub fn new(best_number_at_source: u64, best_number_at_target: u64) -> (r: Self)
        requires
            best_number_at_source < u64::MAX,
            best_number_at_target < u64::MAX,
        ensures
            r.wf(),
            r.next_view() == best_number_at_target + 1,
            r.source_view() == best_number_at_source,
            r.unjustified_view().len() == 0,
            r.selected_view() is None,
    {
        MissingHeadersReader {
            next_header_number: best_number_at_target + 1,
            best_number_at_source,
            unjustified_headers: Vec::new(),
            selected_finality_proof: None,
        }
    }

    /// Number of the next header to read, if any is left.
    pub fn next_header_number(&self) -> (r: Option<u64>)
        ensures
            r == if self.next_view() <= self.source_view() {
                Some(self.next_view())
            } else {
                None::<u64>
            },
    {
        if self.next_header_number <= self.best_number_at_source {
            Some(self.next_header_number)
        } else {
            None
        }
    }

    /// The header with the next number has been read, with its persistent
    /// finality proof if it has one. A mandatory header stops the reading: it
    /// is selected if it has a proof, and its proof is missing otherwise. A
    /// regular header with a proof is selected and the unjustified headers are
    /// forgotten; one without a proof joins them.
    pub fn header_read(&mut self, header: H, finality_proof: Option<F>) -> (r: MissingHeaderOutcome<H, F>)
        requires
            old(self).wf(),
            old(self).next_view() <= old(self).source_view(),
            header.spec_number() == old(self).next_view(),
        ensures
            match r {
                MissingHeaderOutcome::Mandatory(h, f) => header.spec_is_mandatory() && finality_proof == Some(f)
                    && h == header,
                MissingHeaderOutcome::MissingMandatoryFinalityProof(number) => header.spec_is_mandatory()
                    && finality_proof is None && number == header.spec_number(),
                MissingHeaderOutcome::Continue => {
                    &&& !header.spec_is_mandatory()
                    &&& final(self).wf()
                    &&& final(self).next_view() == old(self).next_view() + 1
                    &&& final(self).source_view() == old(self).source_view()
                    &&& finality_proof matches Some(f) ==> {
                        &&& final(self).selected_view() == Some((header, f))
                        &&& final(self).unjustified_view().len() == 0
                    }
                    &&& finality_proof is None ==> {
                        &&& final(self).selected_view() == old(self).selected_view()
                        &&& final(self).unjustified_view() == old(self).unjustified_view().push(header)
                    }
                },
            },
    {
        let is_mandatory = header.is_mandatory();
        let number = header.number();
        match finality_proof {
            Some(finality_proof) => {
                if is_mandatory {
                    return MissingHeaderOutcome::Mandatory(header, finality_proof);
                }
                self.unjustified_headers.clear();
                self.selected_finality_proof = Some((header, finality_proof));
            },
            None => {
                if is_mandatory {
                    return MissingHeaderOutcome::MissingMandatoryFinalityProof(number);
                }
                self.unjustified_headers.push(header);
            },
        }
        self.next_header_number = self.next_header_number + 1;
        MissingHeaderOutcome::Continue
    }

    /// All missing headers have been read: the selected header and proof, if
    /// any, with the unjustified headers after it.
    pub fn finish(self) -> (r: SelectedFinalityProof<H, F>)
        requires
            self.wf(),
        ensures
            match self.selected_view() {
                Some((h, f)) => r matches SelectedFinalityProof::Regular(headers, header, proof) && headers@
                    == self.unjustified_view() && header == h && proof == f,
                None => r matches SelectedFinalityProof::NoPersistentProof(headers) && headers@ == self.unjustified_view(),
            },
            r matches SelectedFinalityProof::Regular(headers, _, _) ==> numbers_consecutive(headers@),
            r matches SelectedFinalityProof::NoPersistentProof(headers) ==> numbers_consecutive(headers@),
    {
        match self.selected_finality_proof {
            Some((header, proof)) => SelectedFinalityProof::Regular(self.unjustified_headers, header, proof),
            None => SelectedFinalityProof::NoPersistentProof(self.unjustified_headers),
        }
    }
}

/// Select the header to submit among the missing headers and the recent
/// finality proofs read from the stream: a mandatory header is submitted as it
/// is; otherwise a better header may come from the recent proofs (see
/// `select_better_recent_finality_proof`), and the recent proofs up to the
/// selected header (or up to the best header at target, if none is selected)
/// are pruned, as well as the oldest beyond the limit (see
/// `prune_recent_finality_proofs`).
pub fn select_header_to_submit<H: SourceHeader, F: Clone>(
    selected: SelectedFinalityProof<H, F>,
    recent_finality_proofs: &mut Vec<(u64, F)>,
    best_number_at_target: u64,
    recent_finality_proofs_limit: usize,
) -> (r: Option<(H, F)>)
    requires
        proofs_ordered(old(recent_finality_proofs)@),
        selected matches SelectedFinalityProof::Regular(headers, _, _) ==> numbers_consecutive(headers@),
        selected matches SelectedFinalityProof::NoPersistentProof(headers) ==> numbers_consecutive(headers@),
    ensures
        proofs_ordered(final(recent_finality_proofs)@),
        ({
            let proofs = old(recent_finality_proofs)@;
            let oldest = match r {
                Some((h, _)) => h.spec_number(),
                None => best_number_at_target,
            };
            let after = final(recent_finality_proofs)@;
            match selected {
                SelectedFinalityProof::Mandatory(h, f) => r == Some((h, f)) && after == proofs,
                SelectedFinalityProof::Regular(headers, h, f) => exists|unjustified: Seq<H>|
                    #[trigger] better_recent_selection(proofs, headers@, Some((h, f)), r, unjustified)
                        && pruned_proofs(proofs, oldest, recent_finality_proofs_limit, after),
                SelectedFinalityProof::NoPersistentProof(headers) => exists|unjustified: Seq<H>|
                    #[trigger] better_recent_selection(proofs, headers@, None, r, unjustified) && pruned_proofs(
                        proofs,
                        oldest,
                        recent_finality_proofs_limit,
                        after,
                    ),
            }
        }),
{
    let (mut unjustified_headers, selected_finality_proof) = match selected {
        SelectedFinalityProof::Mandatory(header, finality_proof) => return Some((header, finality_proof)),
        SelectedFinalityProof::Regular(unjustified_headers, header, finality_proof) => (
            unjustified_headers,
            Some((header, finality_proof)),
        ),
        SelectedFinalityProof::NoPersistentProof(unjustified_headers) => (unjustified_headers, None),
    };
    let ghost headers = unjustified_headers@;
    let ghost previous = selected_finality_proof;
    let better = select_better_recent_finality_proof(
        recent_finality_proofs,
        &mut unjustified_headers,
        selected_finality_proof,
    );
    proof {
        assert(better_recent_selection(recent_finality_proofs@, headers, previous, better, unjustified_headers@));
    }
    let oldest_finality_proof_to_keep = match &better {
        Some((header, _)) => header.number(),
        None => best_number_at_target,
    };
    prune_recent_finality_proofs(
        oldest_finality_proof_to_keep,
        recent_finality_proofs,
        recent_finality_proofs_limit,
    );
    better
}

/// `selected` is what `select_better_recent_finality_proof` returns for the
/// given proofs, unjustified headers and previous selection, and `unjustified`
/// the unjustified headers that it leaves.
pub open spec fn better_recent_selection<H: SourceHeader, F: Clone>(
    proofs: Seq<(u64, F)>,
    headers: Seq<H>,
    previous: Option<(H, F)>,
    selected: Option<(H, F)>,
    unjustified: Seq<H>,
) -> bool {
    if headers.len() == 0 || proofs.len() == 0 {
        selected == previous && unjustified == headers
    } else {
        let begin = if headers[0].spec_number() > proofs[0].0 {
            headers[0].spec_number()
        } else {
            proofs[0].0
        };
        let end = if headers.last().spec_number() < proofs.last().0 {
            headers.last().spec_number()
        } else {
            proofs.last().0
        };
        let index = recent_proof_index(proofs, end);
        let number = proofs[index].0;
        if !(begin <= number <= end) {
            selected == previous && unjustified == headers
        } else {
            let at = number - headers[0].spec_number();
            &&& selected matches Some((header, proof))
            &&& header == headers[at]
            &&& cloned(proofs[index].1, proof)
            &&& unjustified == headers.update(at, headers.last()).drop_last()
        }
    }
}

/// `after` is what `prune_recent_finality_proofs` leaves of `before`.
pub open spec fn pruned_proofs<F>(before: Seq<(u64, F)>, justified: u64, limit: usize, after: Seq<(u64, F)>) -> bool {
    let k = position(before, justified);
    let start = if k < before.len() && before[k].0 == justified {
        k + 1
    } else {
        k
    };
    let kept = before.skip(start);
    let split = if kept.len() > limit {
        kept.len() - limit
    } else {
        0
    };
    after == kept.skip(split)
}

/// Pruning keeps no more proofs than the limit, in order, none of them for a
/// header below the justified one; none for the justified one either, unless
/// several proofs are for the same header.
pub proof fn lemma_pruned_proofs_bounds<F>(before: Seq<(u64, F)>, justified: u64, limit: usize, after: Seq<(u64, F)>)
    requires
        proofs_ordered(before),
        pruned_proofs(before, justified, limit, after),
    ensures
        after.len() <= limit,
        forall|i: int| 0 <= i < after.len() ==> (#[trigger] after[i]).0 >= justified,
        (forall|i: int, j: int| 0 <= i < j < before.len() ==> (#[trigger] before[i]).0 < (#[trigger] before[j]).0)
            ==> forall|i: int| 0 <= i < after.len() ==> (#[trigger] after[i]).0 > justified,
        proofs_ordered(after),
{
    let k = position(before, justified);
    lemma_position_exists(before, justified);
    let start = if k < before.len() && before[k].0 == justified {
        k + 1
    } else {
        k
    };
    let kept = before.skip(start);
    let split = if kept.len() > limit {
        kept.len() - limit
    } else {
        0
    };
    assert forall|i: int| 0 <= i < after.len() implies (#[trigger] after[i]).0 >= justified by {
        assert(after[i] == before[start + split + i]);
    }
    if forall|i: int, j: int| 0 <= i < j < before.len() ==> (#[trigger] before[i]).0 < (#[trigger] before[j]).0 {
        assert forall|i: int| 0 <= i < after.len() implies (#[trigger] after[i]).0 > justified by {
            assert(after[i] == before[start + split + i]);
            if k < before.len() && before[k].0 == justified {
                assert(before[k].0 < before[start + split + i].0);
            }
        }
    }
    assert forall|i: int, j: int| 0 <= i < j < after.len() implies (#[trigger] after[i]).0 <= (
    #[trigger] after[j]).0 by {
        assert(after[i] == before[start + split + i]);
        assert(after[j] == before[start + split + j]);
    }
}

/// Ordered proofs have a position for every number.
proof fn lemma_position_exists<F>(proofs: Seq<(u64, F)>, number: u64)
    requires
        proofs_ordered(proofs),
    ensures
        is_position(proofs, number, position(proofs, number)),
    decreases proofs.len(),
{
    if proofs.len() == 0 {
        assert(is_position(proofs, number, 0));
    } else if proofs.last().0 < number {
        assert(is_position(proofs, number, proofs.len() as int));
    } else {
        let rest = proofs.drop_last();
        assert(proofs_ordered(rest)) by {
            assert forall|i: int, j: int| 0 <= i < j < rest.len() implies (#[trigger] rest[i]).0 <= (
            #[trigger] rest[j]).0 by {
                assert(rest[i] == proofs[i] && rest[j] == proofs[j]);
            }
        }
        lemma_position_exists(rest, number);
        let k = position(rest, number);
        assert(is_position(proofs, number, k)) by {
            assert forall|j: int| 0 <= j < k implies (#[trigger] proofs[j]).0 < number by {
                assert(proofs[j] == rest[j]);
            }
            assert forall|j: int| k <= j < proofs.len() implies (#[trigger] proofs[j]).0 >= number by {
                if j < rest.len() {
                    assert(proofs[j] == rest[j]);
                }
            }
        }
        lemma_position_unique(proofs, number, k);
    }
}

} // verus!
