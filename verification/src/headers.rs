//! Headers queue - the intermediate buffer that is filled when headers are read
//! from the source chain. Headers are removed from the queue once they become
//! known to the target chain. Inside, there are several sub-queues, where headers
//! may stay until source/target chain state isn't updated. When a header reaches the
//! `ready` sub-queue, it may be submitted to the target chain.
//!
//! All queued headers are kept in one sequence, ordered by header number (headers
//! with equal numbers in arrival order); the sub-queue of a header is its status.
//! Headers that are known to be synced are remembered separately.

use vstd::prelude::*;

use linked_hash_map::LinkedHashMap;

use crate::linked_map::{
    completions, completions_contains, completions_insert, completions_keys, completions_len, completions_new,
    completions_pop_front, completions_remove, fetch_times, fetch_times_contains, fetch_times_front,
    fetch_times_insert, fetch_times_keys, fetch_times_len, fetch_times_new, fetch_times_pop_front,
    fetch_times_remove, keys_of, without_key,
};
use crate::sync_types::{is_queue_status, HeaderStatus, QueuedHeader};
use crate::utils::HeaderId;

verus! {

/// We're trying to fetch completion data for single header at this interval
/// (nanoseconds).
pub const RETRY_FETCH_COMPLETION_INTERVAL: u128 = 20_000_000_000;

/// Queued header and the sub-queue it is in.
pub struct QueueEntry<H, E> {
    /// The header.
    pub header: QueuedHeader<H, E>,
    /// The sub-queue (never `Unknown` or `Synced`).
    pub status: HeaderStatus,
}

/// Id of the header of an entry.
pub open spec fn entry_id<H, E>(e: QueueEntry<H, E>) -> HeaderId {
    e.header.spec_id()
}

/// Id of the parent header of an entry.
pub open spec fn entry_parent<H, E>(e: QueueEntry<H, E>) -> HeaderId {
    e.header.spec_parent_id()
}

/// Some entry holds a header with the given id.
pub open spec fn has_entry<H, E>(s: Seq<QueueEntry<H, E>>, id: HeaderId) -> bool {
    exists|i: int| 0 <= i < s.len() && #[trigger] entry_id(s[i]) == id
}

/// Index of the entry that holds the header with the given id.
pub open spec fn entry_index<H, E>(s: Seq<QueueEntry<H, E>>, id: HeaderId) -> int {
    choose|i: int| 0 <= i < s.len() && #[trigger] entry_id(s[i]) == id
}

/// Synchronization status of a header, given the queued entries and the ids of
/// synced headers.
pub open spec fn status_in<H, E>(s: Seq<QueueEntry<H, E>>, synced: Seq<HeaderId>, id: HeaderId) -> HeaderStatus {
    if has_entry(s, id) {
        s[entry_index(s, id)].status
    } else if synced.contains(id) {
        HeaderStatus::Synced
    } else {
        HeaderStatus::Unknown
    }
}

/// Entries are ordered by header number.
pub open spec fn entries_sorted<H, E>(s: Seq<QueueEntry<H, E>>) -> bool {
    forall|i: int, j: int| 0 <= i <= j < s.len() ==> entry_id(#[trigger] s[i]).0 <= entry_id(#[trigger] s[j]).0
}

/// No entry holds a header below the prune border.
pub open spec fn entries_above_border<H, E>(s: Seq<QueueEntry<H, E>>, border: u64) -> bool {
    forall|i: int| 0 <= i < s.len() ==> entry_id(#[trigger] s[i]).0 >= border
}

/// No two entries hold headers with the same id.
pub open spec fn entries_unique<H, E>(s: Seq<QueueEntry<H, E>>) -> bool {
    forall|i: int, j: int|
        0 <= i < s.len() && 0 <= j < s.len() && i != j ==> entry_id(#[trigger] s[i]) != entry_id(#[trigger] s[j])
}

/// Every entry is in a queue and its parent is one block below it.
pub open spec fn entries_well_formed<H, E>(s: Seq<QueueEntry<H, E>>) -> bool {
    forall|i: int|
        0 <= i < s.len() ==> is_queue_status(#[trigger] s[i].status) && entry_parent(s[i]).0 + 1 == entry_id(
            s[i],
        ).0
}

/// No synced header is queued.
pub open spec fn synced_not_queued<H, E>(s: Seq<QueueEntry<H, E>>, synced: Seq<HeaderId>) -> bool {
    forall|id: HeaderId| #[trigger] synced.contains(id) ==> !has_entry(s, id)
}

/// Every synced child is one block above its parent.
pub open spec fn children_one_above(pairs: Seq<(HeaderId, HeaderId)>) -> bool {
    forall|k: int| 0 <= k < pairs.len() ==> (#[trigger] pairs[k]).1.0 == pairs[k].0.0 + 1
}

/// Number of entries with the given status.
pub open spec fn count_status<H, E>(s: Seq<QueueEntry<H, E>>, status: HeaderStatus) -> nat
    decreases s.len(),
{
    if s.len() == 0 {
        0
    } else {
        count_status(s.drop_last(), status) + if s.last().status == status {
            1nat
        } else {
            0nat
        }
    }
}

/// Headers of the entries with the given status, in queue order.
pub open spec fn headers_with_status<H, E>(s: Seq<QueueEntry<H, E>>, status: HeaderStatus) -> Seq<QueuedHeader<H, E>>
    decreases s.len(),
{
    if s.len() == 0 {
        Seq::empty()
    } else if s.last().status == status {
        headers_with_status(s.drop_last(), status).push(s.last().header)
    } else {
        headers_with_status(s.drop_last(), status)
    }
}

/// Position at which a header with the given number is inserted into ordered
/// entries: after every entry whose number is not greater.
pub open spec fn insert_position<H, E>(s: Seq<QueueEntry<H, E>>, number: u64) -> int
    decreases s.len(),
{
    if s.len() == 0 {
        0
    } else if entry_id(s.last()).0 <= number {
        s.len() as int
    } else {
        insert_position(s.drop_last(), number)
    }
}

/// Sub-queue of a new header, given the status of its parent.
pub open spec fn queue_for_new_header(parent_status: HeaderStatus) -> HeaderStatus {
    match parent_status {
        HeaderStatus::Unknown | HeaderStatus::MaybeOrphan => HeaderStatus::MaybeOrphan,
        HeaderStatus::Orphan => HeaderStatus::Orphan,
        _ => HeaderStatus::MaybeExtra,
    }
}

/// The roots and the ids of the headers among the first `n` entries that descend
/// from a root through headers in the `a` or `b` sub-queue.
pub open spec fn descendants_upto<H, E>(
    s: Seq<QueueEntry<H, E>>,
    a: HeaderStatus,
    b: HeaderStatus,
    roots: Set<HeaderId>,
    n: int,
) -> Set<HeaderId>
    decreases n,
{
    if n <= 0 {
        roots
    } else {
        let prev = descendants_upto(s, a, b, roots, n - 1);
        let e = s[n - 1];
        if (e.status == a || e.status == b) && prev.contains(entry_parent(e)) {
            prev.insert(entry_id(e))
        } else {
            prev
        }
    }
}

/// The `i`-th entry is a descendant of a root through headers in the `a` or
/// `b` sub-queue, and is itself in one of them.
pub open spec fn is_moved_descendant<H, E>(
    s: Seq<QueueEntry<H, E>>,
    a: HeaderStatus,
    b: HeaderStatus,
    roots: Set<HeaderId>,
    i: int,
) -> bool {
    (s[i].status == a || s[i].status == b) && descendants_upto(s, a, b, roots, i).contains(entry_parent(s[i]))
}

/// Entries after all descendants of the roots in the `a` and `b` sub-queues have
/// been moved to the `dest` sub-queue.
pub open spec fn move_descendants_spec<H, E>(
    s: Seq<QueueEntry<H, E>>,
    a: HeaderStatus,
    b: HeaderStatus,
    dest: HeaderStatus,
    roots: Set<HeaderId>,
) -> Seq<QueueEntry<H, E>> {
    Seq::new(
        s.len(),
        |i: int|
            if is_moved_descendant(s, a, b, roots, i) {
                QueueEntry { header: s[i].header, status: dest }
            } else {
                s[i]
            },
    )
}

/// Abstract state of a headers queue.
pub ghost struct QueueState<H, E> {
    /// Queued entries, ordered by number.
    pub entries: Seq<QueueEntry<H, E>>,
    /// Ids of headers known to be synced.
    pub synced: Seq<HeaderId>,
    /// (parent, child) pairs of synced headers.
    pub synced_children: Seq<(HeaderId, HeaderId)>,
    /// Synced headers that have a synced children entry.
    pub synced_children_keys: Seq<HeaderId>,
    /// Headers that wait for completion data, with their last fetch time.
    pub incomplete: Seq<((u64, u64), Option<u128>)>,
    /// Completion data that waits to be sent.
    pub completion: Seq<((u64, u64), Seq<u8>)>,
    /// Best synced block number.
    pub best_synced: u64,
    /// Pruned blocks border.
    pub prune_border: u64,
}

/// The queued header `id` and its queued ancestors, child first: the walk
/// along parent links stops at the first header that is not queued.
pub open spec fn queued_ancestry<H, E>(s: Seq<QueueEntry<H, E>>, id: HeaderId) -> Seq<HeaderId>
    decreases id.0,
{
    if has_entry(s, id) {
        let parent = entry_parent(s[entry_index(s, id)]);
        if parent.0 < id.0 {
            seq![id] + queued_ancestry(s, parent)
        } else {
            seq![id]
        }
    } else {
        Seq::empty()
    }
}

/// The entries whose header is not one of the ids, in order.
pub open spec fn entries_without<H, E>(s: Seq<QueueEntry<H, E>>, ids: Seq<HeaderId>) -> Seq<QueueEntry<H, E>>
    decreases s.len(),
{
    if s.len() == 0 {
        s
    } else if ids.contains(entry_id(s.last())) {
        entries_without(s.drop_last(), ids)
    } else {
        entries_without(s.drop_last(), ids).push(s.last())
    }
}

/// (parent, child) pairs of the queued children of `parent`, in queue order.
pub open spec fn child_pairs<H, E>(s: Seq<QueueEntry<H, E>>, parent: HeaderId) -> Seq<(HeaderId, HeaderId)>
    decreases s.len(),
{
    if s.len() == 0 {
        Seq::empty()
    } else if entry_parent(s.last()) == parent {
        child_pairs(s.drop_last(), parent).push((parent, entry_id(s.last())))
    } else {
        child_pairs(s.drop_last(), parent)
    }
}

/// (parent, child) pairs of the queued children of each of the parents, in turn.
pub open spec fn chain_child_pairs<H, E>(s: Seq<QueueEntry<H, E>>, parents: Seq<HeaderId>) -> Seq<(HeaderId, HeaderId)>
    decreases parents.len(),
{
    if parents.len() == 0 {
        Seq::empty()
    } else {
        chain_child_pairs(s, parents.drop_last()) + child_pairs(s, parents.last())
    }
}

/// State of the queue after the target node has told that the header `id` is
/// known to it.
///
/// The header and its queued ancestors leave the queue and become synced; the
/// children they had in the queue are remembered as their synced children; the
/// best synced number is raised to the number of `id`; and the descendants of
/// `id` that waited for their parents to be known (MaybeOrphan and Orphan
/// queues) move to the MaybeExtra queue.
pub open spec fn header_synced_spec<H, E>(st: QueueState<H, E>, id: HeaderId) -> QueueState<H, E> {
    let chain = queued_ancestry(st.entries, id);
    let newly_synced = if chain.len() == 0 && status_in(st.entries, st.synced, id) == HeaderStatus::Unknown {
        seq![id]
    } else {
        Seq::empty()
    };
    QueueState {
        entries: move_descendants_spec(
            entries_without(st.entries, chain),
            HeaderStatus::MaybeOrphan,
            HeaderStatus::Orphan,
            HeaderStatus::MaybeExtra,
            set![id],
        ),
        synced: st.synced + chain + newly_synced,
        synced_children: st.synced_children + chain_child_pairs(st.entries, chain),
        synced_children_keys: st.synced_children_keys + chain,
        best_synced: if st.best_synced < id.0 {
            id.0
        } else {
            st.best_synced
        },
        ..st
    }
}

/// Synced headers `k` generations below `root`, along the remembered (parent,
/// child) pairs of synced headers (`root` itself at generation zero).
pub open spec fn child_level(pairs: Seq<(HeaderId, HeaderId)>, root: HeaderId, k: nat) -> Set<HeaderId>
    decreases k,
{
    if k == 0 {
        set![root]
    } else {
        let prev = child_level(pairs, root, (k - 1) as nat);
        Set::new(|c: HeaderId| exists|j: int| 0 <= j < pairs.len() && prev.contains(pairs[j].0) && pairs[j].1 == c)
    }
}

/// All synced descendants of `root` along the remembered (parent, child) pairs
/// of synced headers.
pub open spec fn synced_descendants(pairs: Seq<(HeaderId, HeaderId)>, root: HeaderId) -> Set<HeaderId> {
    Set::new(|c: HeaderId| exists|k: nat| k >= 1 && #[trigger] child_level(pairs, root, k).contains(c))
}

/// State after the header `id` is found incomplete (`make` is true: the header
/// is synced first and then waits for its completion data), or after its
/// incomplete status is only noted (`make` is false): its descendants in the Ready
/// and Submitted queues, and those of its synced descendants, move to the
/// Incomplete queue.
pub open spec fn add_incomplete_one<H, E>(st: QueueState<H, E>, make: bool, id: HeaderId) -> QueueState<H, E> {
    let st1 = if make {
        header_synced_spec(st, id)
    } else {
        st
    };
    let roots = synced_descendants(st1.synced_children, id).insert(id);
    let st2 = QueueState {
        entries: move_descendants_spec(st1.entries, HeaderStatus::Ready, HeaderStatus::Submitted, HeaderStatus::Incomplete, roots),
        ..st1
    };
    if make {
        QueueState { incomplete: without_key(st2.incomplete, key(id)).push((key(id), None)), ..st2 }
    } else {
        st2
    }
}

/// State after each of the headers, in turn, is found incomplete.
pub open spec fn add_incomplete_spec<H, E>(st: QueueState<H, E>, make: bool, ids: Seq<HeaderId>) -> QueueState<H, E>
    decreases ids.len(),
{
    if ids.len() == 0 {
        st
    } else {
        add_incomplete_one(add_incomplete_spec(st, make, ids.drop_last()), make, ids.last())
    }
}

/// State after the header `id` no longer needs completion data: its
/// descendants in the Incomplete queue, and those of its synced descendants,
/// move to the Ready queue, and it is forgotten by both completion queues.
pub open spec fn complete_one<H, E>(st: QueueState<H, E>, id: HeaderId) -> QueueState<H, E> {
    let roots = synced_descendants(st.synced_children, id).insert(id);
    QueueState {
        entries: move_descendants_spec(st.entries, HeaderStatus::Incomplete, HeaderStatus::Incomplete, HeaderStatus::Ready, roots),
        incomplete: without_key(st.incomplete, key(id)),
        completion: without_key(st.completion, key(id)),
        ..st
    }
}

/// State after each of the headers, in turn, no longer needs completion data.
pub open spec fn complete_spec<H, E>(st: QueueState<H, E>, ids: Seq<HeaderId>) -> QueueState<H, E>
    decreases ids.len(),
{
    if ids.len() == 0 {
        st
    } else {
        complete_one(complete_spec(st, ids.drop_last()), ids.last())
    }
}

/// Header id of a key of the completion queues.
pub open spec fn id_of_key(k: (u64, u64)) -> HeaderId {
    HeaderId(k.0, k.1)
}

/// The ids that none of the completion queues holds yet, in order.
pub open spec fn new_incomplete_ids<H, E>(st: QueueState<H, E>, ids: Seq<HeaderId>) -> Seq<HeaderId>
    decreases ids.len(),
{
    if ids.len() == 0 {
        ids
    } else {
        let rest = new_incomplete_ids(st, ids.drop_last());
        let k = key(ids.last());
        if !keys_of(st.incomplete).contains(k) && !keys_of(st.completion).contains(k) {
            rest.push(ids.last())
        } else {
            rest
        }
    }
}

/// The ids among `candidates` that are not in `ids`, in order.
pub open spec fn ids_not_in(candidates: Seq<HeaderId>, ids: Seq<HeaderId>) -> Seq<HeaderId>
    decreases candidates.len(),
{
    if candidates.len() == 0 {
        candidates
    } else if ids.contains(candidates.last()) {
        ids_not_in(candidates.drop_last(), ids)
    } else {
        ids_not_in(candidates.drop_last(), ids).push(candidates.last())
    }
}

/// Headers of both completion queues (the ones waiting for data first) that
/// are no longer incomplete at the target node.
pub open spec fn just_completed<H, E>(st: QueueState<H, E>, ids: Seq<HeaderId>) -> Seq<HeaderId> {
    ids_not_in((keys_of(st.incomplete) + keys_of(st.completion)).map_values(|k: (u64, u64)| id_of_key(k)), ids)
}

/// State after the target node has told which headers are incomplete.
///
/// Newly incomplete headers are synced and wait for completion data (see
/// `add_incomplete_one`); headers that were waiting but are no longer
/// incomplete let their descendants go (see `complete_one`).
pub open spec fn incomplete_headers_response_spec<H, E>(st: QueueState<H, E>, ids: Seq<HeaderId>) -> QueueState<H, E> {
    let st1 = add_incomplete_spec(st, true, new_incomplete_ids(st, ids));
    complete_spec(st1, just_completed(st1, ids))
}

/// Headers queue.
pub struct QueuedHeaders<H, E> {
    /// All queued headers with their sub-queues, ordered by number.
    entries: Vec<QueueEntry<H, E>>,
    /// Ids of headers that are known to the target node.
    synced: Vec<HeaderId>,
    /// Headers that are known to be synced with children that are synced
    /// too: (parent, child) pairs. We need it to support case when header is
    /// synced, but some of its parents are incomplete.
    synced_children: Vec<(HeaderId, HeaderId)>,
    /// Synced headers that have an entry (maybe without children) in
    /// `synced_children`.
    synced_children_keys: Vec<HeaderId>,
    /// Headers that are waiting for completion data from source node, with the
    /// last fetch time, ordered by that time.
    incomplete_headers: LinkedHashMap<(u64, u64), Option<u128>>,
    /// Headers that are waiting to be completed at target node. Ordered by
    /// insertion time.
    completion_data: LinkedHashMap<(u64, u64), Vec<u8>>,
    /// Best synced block number.
    best_synced_number: u64,
    /// Pruned blocks border. We do not store or accept any blocks with number less than
    /// this number.
    prune_border: u64,
}

/// Key of a header id in the insertion-ordered maps.
pub open spec fn key(id: HeaderId) -> (u64, u64) {
    (id.0, id.1)
}

impl<H, E> QueuedHeaders<H, E> {
    /// Queued entries, ordered by number.
    pub closed spec fn entries_view(self) -> Seq<QueueEntry<H, E>> {
        self.entries@
    }

    /// Ids of headers known to be synced.
    pub closed spec fn synced_view(self) -> Seq<HeaderId> {
        self.synced@
    }

    /// (parent, child) pairs of synced headers.
    pub closed spec fn synced_children_view(self) -> Seq<(HeaderId, HeaderId)> {
        self.synced_children@
    }

    /// Synced headers that have a synced children entry.
    pub closed spec fn synced_children_keys_view(self) -> Seq<HeaderId> {
        self.synced_children_keys@
    }

    /// Headers that wait for completion data, with their last fetch time.
    pub closed spec fn incomplete_view(self) -> Seq<((u64, u64), Option<u128>)> {
        fetch_times(self.incomplete_headers)
    }

    /// Completion data that waits to be sent.
    pub closed spec fn completion_view(self) -> Seq<((u64, u64), Seq<u8>)> {
        completions(self.completion_data)
    }

    /// Best synced block number.
    pub closed spec fn best_synced_view(self) -> u64 {
        self.best_synced_number
    }

    /// Pruned blocks border.
    pub closed spec fn prune_border_view(self) -> u64 {
        self.prune_border
    }

    /// Abstract state of the queue.
    pub open spec fn state(self) -> QueueState<H, E> {
        QueueState {
            entries: self.entries_view(),
            synced: self.synced_view(),
            synced_children: self.synced_children_view(),
            synced_children_keys: self.synced_children_keys_view(),
            incomplete: self.incomplete_view(),
            completion: self.completion_view(),
            best_synced: self.best_synced_view(),
            prune_border: self.prune_border_view(),
        }
    }

    /// Synchronization status of the header.
    pub open spec fn status_spec(self, id: HeaderId) -> HeaderStatus {
        status_in(self.entries_view(), self.synced_view(), id)
    }

    /// Internal consistency of the queue.
    pub open spec fn wf(self) -> bool {
        &&& entries_sorted(self.entries_view())
        &&& entries_unique(self.entries_view())
        &&& entries_well_formed(self.entries_view())
        &&& self.synced_view().no_duplicates()
        &&& synced_not_queued(self.entries_view(), self.synced_view())
        &&& children_one_above(self.synced_children_view())
        &&& entries_above_border(self.entries_view(), self.prune_border_view())
    }

    /// Everything but the queued entries is unchanged.
    pub open spec fn same_except_entries(self, other: Self) -> bool {
        &&& self.synced_view() == other.synced_view()
        &&& self.synced_children_view() == other.synced_children_view()
        &&& self.synced_children_keys_view() == other.synced_children_keys_view()
        &&& self.incomplete_view() == other.incomplete_view()
        &&& self.completion_view() == other.completion_view()
        &&& self.best_synced_view() == other.best_synced_view()
        &&& self.prune_border_view() == other.prune_border_view()
    }

    /// Creates an empty queue.
    pub fn new() -> (r: Self)
        ensures
            r.wf(),
            r.entries_view().len() == 0,
            r.synced_view().len() == 0,
            r.synced_children_view().len() == 0,
            r.synced_children_keys_view().len() == 0,
            r.incomplete_view().len() == 0,
            r.completion_view().len() == 0,
            r.best_synced_view() == 0,
            r.prune_border_view() == 0,
    {
        QueuedHeaders {
            entries: Vec::new(),
            synced: Vec::new(),
            synced_children: Vec::new(),
            synced_children_keys: Vec::new(),
            incomplete_headers: fetch_times_new(),
            completion_data: completions_new(),
            best_synced_number: 0,
            prune_border: 0,
        }
    }

    /// Returns prune border.
    pub fn prune_border(&self) -> (r: u64)
        ensures
            r == self.prune_border_view(),
    {
        self.prune_border
    }

    /// Returns number of headers that are currently in given queue.
    pub fn headers_in_status(&self, status: HeaderStatus) -> (r: usize)
        ensures
            r == count_status(self.entries_view(), status),
    {
        let mut count: usize = 0;
        let mut i: usize = 0;
        while i < self.entries.len()
            invariant
                i <= self.entries@.len(),
                count == count_status(self.entries@.take(i as int), status),
                count <= i,
            decreases self.entries@.len() - i,
        {
            assert(self.entries@.take(i + 1).drop_last() =~= self.entries@.take(i as int));
            if self.entries[i].status == status {
                count = count + 1;
            }
            i = i + 1;
        }
        assert(self.entries@.take(i as int) =~= self.entries@);
        count
    }

    /// Returns number of headers that are currently in the queue, in every
    /// status.
    pub fn total_headers(&self) -> (r: usize)
        ensures
            r == self.entries_view().len(),
    {
        self.entries.len()
    }

    /// Returns number of best block in the queue, zero if the queue is empty.
    pub fn best_queued_number(&self) -> (r: u64)
        requires
            self.wf(),
        ensures
            self.entries_view().len() == 0 ==> r == 0,
            self.entries_view().len() > 0 ==> r == entry_id(self.entries_view().last()).0,
            forall|i: int|
                0 <= i < self.entries_view().len() ==> entry_id(#[trigger] self.entries_view()[i]).0 <= r,
    {
        if self.entries.len() == 0 {
            0
        } else {
            self.entries[self.entries.len() - 1].header.id().0
        }
    }

    /// Returns number of best synced block we have ever seen. It is either less
    /// than `best_queued_number()`, or points to last synced block if queue is empty.
    pub fn best_synced_number(&self) -> (r: u64)
        ensures
            r == self.best_synced_view(),
    {
        self.best_synced_number
    }

    /// Returns synchronization status of the header.
    pub fn status(&self, id: &HeaderId) -> (r: HeaderStatus)
        requires
            self.wf(),
        ensures
            r == self.status_spec(*id),
    {
        let mut i: usize = 0;
        while i < self.entries.len()
            invariant
                self.wf(),
                i <= self.entries@.len(),
                forall|j: int| 0 <= j < i ==> entry_id(#[trigger] self.entries@[j]) != *id,
            decreases self.entries@.len() - i,
        {
            if self.entries[i].header.id() == *id {
                assert(entry_id(self.entries@[i as int]) == *id);
                assert(has_entry(self.entries@, *id));
                proof {
                    let k = entry_index(self.entries@, *id);
                    assert(0 <= k < self.entries@.len() && entry_id(self.entries@[k]) == *id);
                    assert(entries_unique(self.entries@));
                    if k != i as int {
                        assert(entry_id(self.entries@[k]) != entry_id(self.entries@[i as int]));
                    }
                }
                return self.entries[i].status;
            }
            i = i + 1;
        }
        if contains_id(&self.synced, id) {
            HeaderStatus::Synced
        } else {
            HeaderStatus::Unknown
        }
    }

    /// Get oldest header from given queue.
    pub fn header(&self, status: HeaderStatus) -> (r: Option<&QueuedHeader<H, E>>)
        ensures
            r is None <==> count_status(self.entries_view(), status) == 0,
            r is Some ==> *(r->0) == headers_with_status(self.entries_view(), status)[0],
    {
        let mut i: usize = 0;
        while i < self.entries.len()
            invariant
                i <= self.entries@.len(),
                count_status(self.entries@.take(i as int), status) == 0,
                headers_with_status(self.entries@.take(i as int), status).len() == 0,
            decreases self.entries@.len() - i,
        {
            assert(self.entries@.take(i + 1).drop_last() =~= self.entries@.take(i as int));
            if self.entries[i].status == status {
                proof {
                    lemma_headers_with_status_prefix(self.entries@, status, i as int);
                    lemma_count_positive(self.entries@, status, i as int);
                }
                return Some(&self.entries[i].header);
            }
            i = i + 1;
        }
        assert(self.entries@.take(i as int) =~= self.entries@);
        None
    }

    /// Get all headers from given queue, oldest first; `None` if the queue is
    /// empty.
    pub fn headers(&self, status: HeaderStatus) -> (r: Option<Vec<&QueuedHeader<H, E>>>)
        ensures
            r is None <==> count_status(self.entries_view(), status) == 0,
            r is Some ==> (r->0)@.len() == headers_with_status(self.entries_view(), status).len(),
            r is Some ==> forall|k: int|
                0 <= k < (r->0)@.len() ==> *(#[trigger] (r->0)@[k]) == headers_with_status(
                    self.entries_view(),
                    status,
                )[k],
    {
        let mut result: Vec<&QueuedHeader<H, E>> = Vec::new();
        let mut i: usize = 0;
        while i < self.entries.len()
            invariant
                i <= self.entries@.len(),
                result@.len() == headers_with_status(self.entries@.take(i as int), status).len(),
                result@.len() == count_status(self.entries@.take(i as int), status),
                forall|k: int|
                    0 <= k < result@.len() ==> *(#[trigger] result@[k]) == headers_with_status(
                        self.entries@.take(i as int),
                        status,
                    )[k],
            decreases self.entries@.len() - i,
        {
            assert(self.entries@.take(i + 1).drop_last() =~= self.entries@.take(i as int));
            if self.entries[i].status == status {
                result.push(&self.entries[i].header);
            }
            i = i + 1;
        }
        assert(self.entries@.take(i as int) =~= self.entries@);
        if result.len() == 0 {
            None
        } else {
            Some(result)
        }
    }
}


impl<H, E> QueuedHeaders<H, E> {
    /// The parent of the queued header `id` is incomplete: it waits for its
    /// completion data, its completion data waits to be sent, or it is itself
    /// waiting for an incomplete ancestor.
    pub open spec fn parent_incomplete_spec(self, id: HeaderId) -> bool {
        has_entry(self.entries_view(), id) && {
            let parent = entry_parent(self.entries_view()[entry_index(self.entries_view(), id)]);
            ||| keys_of(self.incomplete_view()).contains(key(parent))
            ||| keys_of(self.completion_view()).contains(key(parent))
            ||| self.status_spec(parent) == HeaderStatus::Incomplete
        }
    }

    /// Index of the entry of the header, if it is queued.
    fn find_entry(&self, id: &HeaderId) -> (r: Option<usize>)
        requires
            self.wf(),
        ensures
            r is None <==> !has_entry(self.entries_view(), *id),
            r is Some ==> r->0 == entry_index(self.entries_view(), *id),
            r is Some ==> (r->0) < self.entries_view().len(),
    {
        let mut i: usize = 0;
        while i < self.entries.len()
            invariant
                self.wf(),
                i <= self.entries@.len(),
                forall|j: int| 0 <= j < i ==> entry_id(#[trigger] self.entries@[j]) != *id,
            decreases self.entries@.len() - i,
        {
            if self.entries[i].header.id() == *id {
                proof {
                    assert(entry_id(self.entries@[i as int]) == *id);
                    let k = entry_index(self.entries@, *id);
                    assert(0 <= k < self.entries@.len() && entry_id(self.entries@[k]) == *id);
                    if k != i as int {
                        assert(entry_id(self.entries@[k]) != entry_id(self.entries@[i as int]));
                    }
                }
                return Some(i);
            }
            i = i + 1;
        }
        None
    }

    /// Replaces the entry at `i` by one for the same header.
    fn replace_entry(&mut self, i: usize, entry: QueueEntry<H, E>)
        requires
            old(self).wf(),
            i < old(self).entries_view().len(),
            entry_id(entry) == entry_id(old(self).entries_view()[i as int]),
            entry_parent(entry) == entry_parent(old(self).entries_view()[i as int]),
            is_queue_status(entry.status),
        ensures
            final(self).wf(),
            final(self).same_except_entries(*old(self)),
            final(self).entries_view() == old(self).entries_view().update(i as int, entry),
    {
        let ghost s = self.entries@;
        let _ = self.entries.remove(i);
        self.entries.insert(i, entry);
        proof {
            assert(self.entries@ =~= s.update(i as int, entry));
            lemma_update_keeps_wf(s, i as int, entry);
            assert forall|id: HeaderId| #[trigger] self.synced@.contains(id) implies !has_entry(
                self.entries@,
                id,
            ) by {
                assert(!has_entry(s, id));
            }
        }
    }

    /// Adds a header that is not known yet to the queue, in the given sub-queue.
    fn insert_entry(&mut self, header: QueuedHeader<H, E>, status: HeaderStatus)
        requires
            old(self).wf(),
            is_queue_status(status),
            old(self).status_spec(header.spec_id()) == HeaderStatus::Unknown,
            header.spec_parent_id().0 + 1 == header.spec_id().0,
            header.spec_id().0 >= old(self).prune_border_view(),
        ensures
            final(self).wf(),
            final(self).same_except_entries(*old(self)),
            final(self).entries_view() == old(self).entries_view().insert(
                insert_position(old(self).entries_view(), header.spec_id().0),
                QueueEntry { header, status },
            ),
    {
        let ghost s = self.entries@;
        let number = header.id().0;
        let mut i: usize = self.entries.len();
        assert(s.take(i as int) =~= s);
        while i > 0 && self.entries[i - 1].header.id().0 > number
            invariant
                self.entries@ == s,
                i <= s.len(),
                insert_position(s, number) == insert_position(s.take(i as int), number),
                forall|j: int| i <= j < s.len() ==> entry_id(#[trigger] s[j]).0 > number,
            decreases i,
        {
            assert(s.take(i as int).drop_last() =~= s.take(i - 1));
            i = i - 1;
        }
        proof {
            if i > 0 {
                assert(s.take(i as int).last() == s[i - 1]);
            } else {
                assert(s.take(0) =~= Seq::<QueueEntry<H, E>>::empty());
            }
            assert(insert_position(s, number) == i as int);
        }
        let entry = QueueEntry { header, status };
        self.entries.insert(i, entry);
        proof {
            lemma_insert_keeps_wf(s, i as int, entry);
            assert forall|j: int| 0 <= j < self.entries@.len() implies entry_id(
                #[trigger] self.entries@[j],
            ).0 >= self.prune_border by {
                if j < i {
                    assert(self.entries@[j] == s[j]);
                } else if j > i {
                    assert(self.entries@[j] == s[j - 1]);
                }
            }
            assert forall|id: HeaderId| #[trigger] self.synced@.contains(id) implies !has_entry(
                self.entries@,
                id,
            ) by {
                assert(!has_entry(s, id));
                assert(id != entry_id(entry));
            }
        }
    }

    /// Appends new header, received from the source node, to the queue.
    ///
    /// A header that is already known, or that is below the prune border, is
    /// ignored. Otherwise it goes to the sub-queue that the status of its parent
    /// decides (`queue_for_new_header`).
    pub fn header_response(&mut self, header: QueuedHeader<H, E>)
        requires
            old(self).wf(),
        ensures
            final(self).wf(),
            (old(self).status_spec(header.spec_id()) != HeaderStatus::Unknown || header.spec_id().0
                < old(self).prune_border_view()) ==> *final(self) == *old(self),
            !(old(self).status_spec(header.spec_id()) != HeaderStatus::Unknown || header.spec_id().0
                < old(self).prune_border_view()) ==> {
                &&& final(self).same_except_entries(*old(self))
                &&& final(self).entries_view() == old(self).entries_view().insert(
                    insert_position(old(self).entries_view(), header.spec_id().0),
                    QueueEntry {
                        header,
                        status: queue_for_new_header(old(self).status_spec(header.spec_parent_id())),
                    },
                )
            },
    {
        let id = header.id();
        let parent_id = header.parent_id();
        let status = self.status(&id);
        if status != HeaderStatus::Unknown {
            return;
        }
        if id.0 < self.prune_border {
            return;
        }
        let parent_status = self.status(&parent_id);
        let new_status = match parent_status {
            HeaderStatus::Unknown | HeaderStatus::MaybeOrphan => HeaderStatus::MaybeOrphan,
            HeaderStatus::Orphan => HeaderStatus::Orphan,
            _ => HeaderStatus::MaybeExtra,
        };
        self.insert_entry(header, new_status);
    }

    /// Moves the queued header from the `source` sub-queue to the `destination`
    /// one; nothing changes if the header is not in the `source` sub-queue.
    fn move_header(&mut self, id: &HeaderId, source: HeaderStatus, destination: HeaderStatus)
        requires
            old(self).wf(),
            is_queue_status(destination),
        ensures
            final(self).wf(),
            final(self).same_except_entries(*old(self)),
            final(self).entries_view() == moved_entries(old(self).entries_view(), *id, source, destination),
    {
        match self.find_entry(id) {
            Some(i) => {
                if self.entries[i].status == source {
                    let ghost s = self.entries@;
                    let mut entry = self.entries.remove(i);
                    self.entries.insert(i, QueueEntry { header: entry.header, status: destination });
                    proof {
                        assert(self.entries@ =~= s.update(i as int, QueueEntry { header: s[i as int].header, status: destination }));
                        lemma_update_keeps_wf(s, i as int, self.entries@[i as int]);
                        assert forall|x: HeaderId| #[trigger] self.synced@.contains(x) implies !has_entry(
                            self.entries@,
                            x,
                        ) by {
                            assert(!has_entry(s, x));
                        }
                    }
                }
            },
            None => {},
        }
    }

    /// Moves all descendants of the roots in the `a` or `b` sub-queue to the
    /// `destination` sub-queue.
    fn move_descendants(
        &mut self,
        a: HeaderStatus,
        b: HeaderStatus,
        destination: HeaderStatus,
        roots: Vec<HeaderId>,
    )
        requires
            old(self).wf(),
            is_queue_status(destination),
        ensures
            final(self).wf(),
            final(self).same_except_entries(*old(self)),
            final(self).entries_view() == move_descendants_spec(
                old(self).entries_view(),
                a,
                b,
                destination,
                roots@.to_set(),
            ),
    {
        let ghost s = self.entries@;
        let ghost root_set = roots@.to_set();
        let mut moved: Vec<HeaderId> = roots;
        let mut i: usize = 0;
        proof {
            assert forall|x: HeaderId| moved@.contains(x) <==> descendants_upto(s, a, b, root_set, 0).contains(x) by {}
        }
        while i < self.entries.len()
            invariant
                self.wf(),
                self.same_except_entries(*old(self)),
                is_queue_status(destination),
                s == old(self).entries_view(),
                self.entries@.len() == s.len(),
                i <= s.len(),
                forall|j: int|
                    0 <= j < i ==> #[trigger] self.entries@[j] == move_descendants_spec(s, a, b, destination, root_set)[j],
                forall|j: int| i <= j < s.len() ==> #[trigger] self.entries@[j] == s[j],
                forall|x: HeaderId| moved@.contains(x) <==> descendants_upto(s, a, b, root_set, i as int).contains(x),
            decreases s.len() - i,
        {
            let status = self.entries[i].status;
            let parent = self.entries[i].header.parent_id();
            let is_moved = (status == a || status == b) && contains_id(&moved, &parent);
            proof {
                assert(self.entries@[i as int] == s[i as int]);
                assert(is_moved == is_moved_descendant(s, a, b, root_set, i as int));
            }
            let ghost prev_moved = moved@;
            if is_moved {
                let id = self.entries[i].header.id();
                let ghost before = self.entries@;
                let entry = self.entries.remove(i);
                self.entries.insert(i, QueueEntry { header: entry.header, status: destination });
                moved.push(id);
                proof {
                    assert(self.entries@ =~= before.update(
                        i as int,
                        QueueEntry { header: s[i as int].header, status: destination },
                    ));
                    lemma_update_keeps_wf(before, i as int, self.entries@[i as int]);
                    assert forall|x: HeaderId| #[trigger] self.synced@.contains(x) implies !has_entry(
                        self.entries@,
                        x,
                    ) by {
                        assert(!has_entry(before, x));
                    }
                }
            }
            proof {
                if is_moved {
                    assert(moved@ == prev_moved.push(entry_id(s[i as int])));
                    assert forall|x: HeaderId|
                        moved@.contains(x) <==> descendants_upto(s, a, b, root_set, i + 1).contains(x) by {
                        lemma_push_contains(prev_moved, entry_id(s[i as int]), x);
                    }
                } else {
                    assert(moved@ == prev_moved);
                }
            }
            i = i + 1;
        }
        proof {
            assert(self.entries@ =~= move_descendants_spec(s, a, b, destination, root_set));
        }
    }

    /// Receive target node response for MaybeOrphan request: whether the
    /// target node knows the header `id` (the parent of queued headers).
    ///
    /// If it does not, descendants of `id` in the MaybeOrphan queue are orphans;
    /// if it does, descendants in both queues may now be submitted once we know
    /// whether they need extra data.
    pub fn maybe_orphan_response(&mut self, id: &HeaderId, response: bool)
        requires
            old(self).wf(),
        ensures
            final(self).wf(),
            final(self).same_except_entries(*old(self)),
            !response ==> final(self).entries_view() == move_descendants_spec(
                old(self).entries_view(),
                HeaderStatus::MaybeOrphan,
                HeaderStatus::MaybeOrphan,
                HeaderStatus::Orphan,
                set![*id],
            ),
            response ==> final(self).entries_view() == move_descendants_spec(
                old(self).entries_view(),
                HeaderStatus::MaybeOrphan,
                HeaderStatus::Orphan,
                HeaderStatus::MaybeExtra,
                set![*id],
            ),
    {
        let mut roots: Vec<HeaderId> = Vec::new();
        roots.push(*id);
        proof {
            assert(roots@ =~= seq![*id]);
            lemma_single_to_set(*id);
        }
        if !response {
            self.move_descendants(HeaderStatus::MaybeOrphan, HeaderStatus::MaybeOrphan, HeaderStatus::Orphan, roots);
            return;
        }
        self.move_descendants(HeaderStatus::MaybeOrphan, HeaderStatus::Orphan, HeaderStatus::MaybeExtra, roots);
    }

    /// Returns true if parent of this header is either incomplete or waiting for
    /// its own incomplete ancestor to be completed.
    pub fn is_parent_incomplete(&self, id: &HeaderId) -> (r: bool)
        requires
            self.wf(),
        ensures
            r == self.parent_incomplete_spec(*id),
    {
        match self.find_entry(id) {
            Some(i) => {
                let parent_id = self.entries[i].header.parent_id();
                let k = (parent_id.0, parent_id.1);
                fetch_times_contains(&self.incomplete_headers, k) || completions_contains(&self.completion_data, k)
                    || self.status(&parent_id) == HeaderStatus::Incomplete
            },
            None => false,
        }
    }

    /// Receive target node response for MaybeExtra request: whether the header
    /// needs extra data to be submitted.
    pub fn maybe_extra_response(&mut self, id: &HeaderId, response: bool)
        requires
            old(self).wf(),
        ensures
            final(self).wf(),
            final(self).same_except_entries(*old(self)),
            final(self).entries_view() == moved_entries(
                old(self).entries_view(),
                *id,
                HeaderStatus::MaybeExtra,
                if response {
                    HeaderStatus::Extra
                } else if old(self).parent_incomplete_spec(*id) {
                    HeaderStatus::Incomplete
                } else {
                    HeaderStatus::Ready
                },
            ),
    {
        let destination = if response {
            HeaderStatus::Extra
        } else if self.is_parent_incomplete(id) {
            HeaderStatus::Incomplete
        } else {
            HeaderStatus::Ready
        };
        self.move_header(id, HeaderStatus::MaybeExtra, destination);
    }

    /// Receive extra from source node: the header leaves the Extra queue with
    /// the data attached.
    pub fn extra_response(&mut self, id: &HeaderId, extra: E)
        requires
            old(self).wf(),
        ensures
            final(self).wf(),
            final(self).same_except_entries(*old(self)),
            final(self).entries_view().len() == old(self).entries_view().len(),
            !(has_entry(old(self).entries_view(), *id) && old(self).entries_view()[entry_index(
                old(self).entries_view(),
                *id,
            )].status == HeaderStatus::Extra) ==> final(self).entries_view() == old(self).entries_view(),
            (has_entry(old(self).entries_view(), *id) && old(self).entries_view()[entry_index(
                old(self).entries_view(),
                *id,
            )].status == HeaderStatus::Extra) ==> {
                let i = entry_index(old(self).entries_view(), *id);
                let e = final(self).entries_view()[i];
                &&& e.status == if old(self).parent_incomplete_spec(*id) {
                    HeaderStatus::Incomplete
                } else {
                    HeaderStatus::Ready
                }
                &&& e.header.spec_id() == *id
                &&& e.header.spec_parent_id() == entry_parent(old(self).entries_view()[i])
                &&& e.header.spec_header() == old(self).entries_view()[i].header.spec_header()
                &&& e.header.spec_extra() == Some(extra)
                &&& forall|j: int|
                    0 <= j < old(self).entries_view().len() && j != i ==> #[trigger] final(self).entries_view()[j]
                        == old(self).entries_view()[j]
            },
    {
        let destination = if self.is_parent_incomplete(id) {
            HeaderStatus::Incomplete
        } else {
            HeaderStatus::Ready
        };
        match self.find_entry(id) {
            Some(i) => {
                if self.entries[i].status == HeaderStatus::Extra {
                    let ghost s = self.entries@;
                    let entry = self.entries.remove(i);
                    let header = entry.header.set_extra(extra);
                    self.entries.insert(i, QueueEntry { header, status: destination });
                    proof {
                        assert(self.entries@ =~= s.update(i as int, self.entries@[i as int]));
                        lemma_update_keeps_wf(s, i as int, self.entries@[i as int]);
                        assert forall|x: HeaderId| #[trigger] self.synced@.contains(x) implies !has_entry(
                            self.entries@,
                            x,
                        ) by {
                            assert(!has_entry(s, x));
                        }
                    }
                }
            },
            None => {},
        }
    }

    /// Receive completion response from source node.
    ///
    /// The data is kept only if we are waiting for it. The header then goes to the
    /// back of the headers that wait for completion data (so the data is not
    /// fetched again at once), with `now` as its last fetch time.
    pub fn completion_response(&mut self, id: &HeaderId, completion: Option<Vec<u8>>, now: u128)
        requires
            old(self).wf(),
        ensures
            final(self).wf(),
            final(self).entries_view() == old(self).entries_view(),
            final(self).synced_view() == old(self).synced_view(),
            final(self).synced_children_view() == old(self).synced_children_view(),
            final(self).synced_children_keys_view() == old(self).synced_children_keys_view(),
            final(self).best_synced_view() == old(self).best_synced_view(),
            final(self).prune_border_view() == old(self).prune_border_view(),
            (completion is None || !keys_of(old(self).incomplete_view()).contains(key(*id))) ==> {
                &&& final(self).incomplete_view() == old(self).incomplete_view()
                &&& final(self).completion_view() == old(self).completion_view()
            },
            (completion is Some && keys_of(old(self).incomplete_view()).contains(key(*id))) ==> {
                &&& final(self).incomplete_view() == without_key(old(self).incomplete_view(), key(*id)).push(
                    (key(*id), Some(now)),
                )
                &&& final(self).completion_view() == without_key(old(self).completion_view(), key(*id)).push(
                    (key(*id), (completion->0)@),
                )
            },
    {
        let k = (id.0, id.1);
        match completion {
            Some(completion) => {
                let removed = fetch_times_remove(&mut self.incomplete_headers, k);
                proof {
                    if !removed {
                        lemma_without_absent_key(old(self).incomplete_view(), k);
                    }
                }
                if removed {
                    completions_insert(&mut self.completion_data, k, completion);
                    fetch_times_insert(&mut self.incomplete_headers, k, Some(now));
                    proof {
                        lemma_without_key_twice(old(self).incomplete_view(), k);
                    }
                }
            },
            None => {},
        }
    }

    /// When headers are submitted to target node: each of them that is in the
    /// Ready queue moves to the Submitted queue.
    pub fn headers_submitted(&mut self, ids: Vec<HeaderId>)
        requires
            old(self).wf(),
        ensures
            final(self).wf(),
            final(self).same_except_entries(*old(self)),
            final(self).entries_view() == submitted_entries(old(self).entries_view(), ids@),
    {
        let mut i: usize = 0;
        while i < ids.len()
            invariant
                self.wf(),
                self.same_except_entries(*old(self)),
                i <= ids@.len(),
                self.entries_view() == submitted_entries(old(self).entries_view(), ids@.take(i as int)),
            decreases ids@.len() - i,
        {
            assert(ids@.take(i + 1).drop_last() =~= ids@.take(i as int));
            self.move_header(&ids[i], HeaderStatus::Ready, HeaderStatus::Submitted);
            i = i + 1;
        }
        assert(ids@.take(i as int) =~= ids@);
    }

    /// When header completion data is sent to target node, it is dropped.
    pub fn header_completed(&mut self, id: &HeaderId)
        requires
            old(self).wf(),
        ensures
            final(self).wf(),
            final(self).entries_view() == old(self).entries_view(),
            final(self).synced_view() == old(self).synced_view(),
            final(self).synced_children_view() == old(self).synced_children_view(),
            final(self).synced_children_keys_view() == old(self).synced_children_keys_view(),
            final(self).best_synced_view() == old(self).best_synced_view(),
            final(self).prune_border_view() == old(self).prune_border_view(),
            final(self).incomplete_view() == old(self).incomplete_view(),
            final(self).completion_view() == without_key(old(self).completion_view(), key(*id)),
    {
        let _ = completions_remove(&mut self.completion_data, (id.0, id.1));
    }

    /// Returns true if given header requires completion data.
    pub fn requires_completion_data(&self, id: &HeaderId) -> (r: bool)
        ensures
            r == keys_of(self.incomplete_view()).contains(key(*id)),
    {
        fetch_times_contains(&self.incomplete_headers, (id.0, id.1))
    }
}


impl<H, E> QueuedHeaders<H, E> {
    /// Returns id of the header for which we want to fetch completion data.
    ///
    /// Only the header at the front of the headers that wait for completion data
    /// is considered: it is chosen if its data has never been asked for, or if
    /// more than `RETRY_FETCH_COMPLETION_INTERVAL` has passed since (`now` is the
    /// current time, in nanoseconds). The chosen header goes to the back, with
    /// `now` as its last fetch time.
    pub fn incomplete_header(&mut self, now: u128) -> (r: Option<HeaderId>)
        requires
            old(self).wf(),
        ensures
            final(self).wf(),
            final(self).entries_view() == old(self).entries_view(),
            final(self).synced_view() == old(self).synced_view(),
            final(self).synced_children_view() == old(self).synced_children_view(),
            final(self).synced_children_keys_view() == old(self).synced_children_keys_view(),
            final(self).completion_view() == old(self).completion_view(),
            final(self).best_synced_view() == old(self).best_synced_view(),
            final(self).prune_border_view() == old(self).prune_border_view(),
            !fetch_due(old(self).incomplete_view(), now) ==> r is None && final(self).incomplete_view()
                == old(self).incomplete_view(),
            fetch_due(old(self).incomplete_view(), now) ==> {
                let k = old(self).incomplete_view()[0].0;
                &&& r == Some(HeaderId(k.0, k.1))
                &&& final(self).incomplete_view() == without_key(old(self).incomplete_view().drop_first(), k).push(
                    (k, Some(now)),
                )
            },
    {
        match fetch_times_front(&self.incomplete_headers) {
            None => None,
            Some((k, last_fetch_time)) => {
                let retry = match last_fetch_time {
                    Some(last_fetch_time) => last_fetch_time < now && now - last_fetch_time
                        > RETRY_FETCH_COMPLETION_INTERVAL,
                    None => true,
                };
                if retry {
                    fetch_times_pop_front(&mut self.incomplete_headers);
                    fetch_times_insert(&mut self.incomplete_headers, k, Some(now));
                    Some(HeaderId(k.0, k.1))
                } else {
                    None
                }
            },
        }
    }

    /// Returns header completion data to upload to target node: the data at the
    /// front of the queue, which then goes to the back.
    pub fn header_to_complete(&mut self) -> (r: Option<(HeaderId, Vec<u8>)>)
        requires
            old(self).wf(),
        ensures
            final(self).wf(),
            final(self).entries_view() == old(self).entries_view(),
            final(self).synced_view() == old(self).synced_view(),
            final(self).synced_children_view() == old(self).synced_children_view(),
            final(self).synced_children_keys_view() == old(self).synced_children_keys_view(),
            final(self).incomplete_view() == old(self).incomplete_view(),
            final(self).best_synced_view() == old(self).best_synced_view(),
            final(self).prune_border_view() == old(self).prune_border_view(),
            old(self).completion_view().len() == 0 ==> r is None && final(self).completion_view()
                == old(self).completion_view(),
            old(self).completion_view().len() > 0 ==> {
                let (k, c) = old(self).completion_view()[0];
                &&& r is Some
                &&& (r->0).0 == HeaderId(k.0, k.1)
                &&& (r->0).1@ == c
                &&& final(self).completion_view() == without_key(old(self).completion_view().drop_first(), k).push(
                    (k, c),
                )
            },
    {
        match completions_pop_front(&mut self.completion_data) {
            None => None,
            Some((k, completion)) => {
                let copy = copy_bytes(&completion);
                completions_insert(&mut self.completion_data, k, completion);
                Some((HeaderId(k.0, k.1), copy))
            },
        }
    }

    /// Prune and never accept headers before this block.
    ///
    /// If the border moves up, every queued header, synced header and synced
    /// children entry below it is forgotten.
    pub fn prune(&mut self, prune_border: u64)
        requires
            old(self).wf(),
        ensures
            final(self).wf(),
            final(self).incomplete_view() == old(self).incomplete_view(),
            final(self).completion_view() == old(self).completion_view(),
            final(self).best_synced_view() == old(self).best_synced_view(),
            prune_border <= old(self).prune_border_view() ==> *final(self) == *old(self),
            prune_border > old(self).prune_border_view() ==> {
                &&& final(self).prune_border_view() == prune_border
                &&& entries_pruned(old(self).entries_view(), final(self).entries_view(), prune_border)
                &&& final(self).synced_view() == ids_from(old(self).synced_view(), prune_border)
                &&& final(self).synced_children_keys_view() == ids_from(
                    old(self).synced_children_keys_view(),
                    prune_border,
                )
                &&& final(self).synced_children_view() == pairs_from(
                    old(self).synced_children_view(),
                    prune_border,
                )
            },
    {
        if prune_border <= self.prune_border {
            return;
        }
        let ghost s = self.entries@;
        let mut k: usize = 0;
        while k < self.entries.len() && self.entries[k].header.id().0 < prune_border
            invariant
                self.entries@ == s,
                k <= s.len(),
                forall|j: int| 0 <= j < k ==> entry_id(#[trigger] s[j]).0 < prune_border,
            decreases s.len() - k,
        {
            k = k + 1;
        }
        proof {
            assert forall|j: int| k <= j < s.len() implies entry_id(#[trigger] s[j]).0 >= prune_border by {
                assert(entry_id(s[k as int]).0 <= entry_id(s[j]).0);
            }
        }
        let kept = self.entries.split_off(k);
        self.entries = kept;
        let synced = retain_ids_from(&self.synced, prune_border);
        self.synced = synced;
        let keys = retain_ids_from(&self.synced_children_keys, prune_border);
        self.synced_children_keys = keys;
        let pairs = retain_pairs_from(&self.synced_children, prune_border);
        self.synced_children = pairs;
        self.prune_border = prune_border;
        proof {
            assert(self.entries@ =~= s.skip(k as int));
            let t = self.entries@;
            assert forall|j: int| 0 <= j < t.len() implies #[trigger] t[j] == s[j + k] by {}
            assert forall|i: int, j: int| 0 <= i <= j < t.len() implies entry_id(#[trigger] t[i]).0 <= entry_id(
                #[trigger] t[j],
            ).0 by {
                assert(entry_id(s[i + k]).0 <= entry_id(s[j + k]).0);
            }
            assert forall|i: int, j: int|
                0 <= i < t.len() && 0 <= j < t.len() && i != j implies entry_id(#[trigger] t[i]) != entry_id(
                #[trigger] t[j],
            ) by {
                assert(entry_id(s[i + k]) != entry_id(s[j + k]));
            }
            assert forall|i: int| 0 <= i < t.len() implies is_queue_status(#[trigger] t[i].status) && entry_parent(
                t[i],
            ).0 + 1 == entry_id(t[i]).0 by {
                assert(is_queue_status(s[i + k].status));
            }
            lemma_ids_from(old(self).synced@, prune_border);
            lemma_pairs_from(old(self).synced_children@, prune_border);
            assert forall|id: HeaderId| #[trigger] self.synced@.contains(id) implies !has_entry(t, id) by {
                assert(old(self).synced@.contains(id));
                assert(!has_entry(s, id));
                if has_entry(t, id) {
                    let j = choose|j: int| 0 <= j < t.len() && #[trigger] entry_id(t[j]) == id;
                    assert(entry_id(s[j + k]) == id);
                }
            }
        }
    }

    /// Forgets all ever known headers. The headers that wait for completion
    /// data, and the completion data, stay.
    pub fn clear(&mut self)
        requires
            old(self).wf(),
        ensures
            final(self).wf(),
            final(self).entries_view().len() == 0,
            final(self).synced_view().len() == 0,
            final(self).synced_children_view().len() == 0,
            final(self).synced_children_keys_view().len() == 0,
            final(self).incomplete_view() == old(self).incomplete_view(),
            final(self).completion_view() == old(self).completion_view(),
            final(self).best_synced_view() == 0,
            final(self).prune_border_view() == 0,
    {
        self.entries.clear();
        self.synced.clear();
        self.synced_children.clear();
        self.synced_children_keys.clear();
        self.best_synced_number = 0;
        self.prune_border = 0;
        proof {
            assert(self.synced@.no_duplicates());
        }
    }

    /// Ids of the headers that wait for completion data, front first.
    pub fn incomplete_header_ids(&self) -> (r: Vec<HeaderId>)
        ensures
            r@.len() == self.incomplete_view().len(),
            forall|k: int|
                0 <= k < r@.len() ==> #[trigger] r@[k] == HeaderId(
                    self.incomplete_view()[k].0.0,
                    self.incomplete_view()[k].0.1,
                ),
    {
        let keys = fetch_times_keys(&self.incomplete_headers);
        ids_of_keys(&keys)
    }

    /// Ids of the headers whose completion data waits to be sent, front first.
    pub fn completion_header_ids(&self) -> (r: Vec<HeaderId>)
        ensures
            r@.len() == self.completion_view().len(),
            forall|k: int|
                0 <= k < r@.len() ==> #[trigger] r@[k] == HeaderId(
                    self.completion_view()[k].0.0,
                    self.completion_view()[k].0.1,
                ),
    {
        let keys = completions_keys(&self.completion_data);
        ids_of_keys(&keys)
    }
}


impl<H, E> QueuedHeaders<H, E> {
    /// The queued header `id` and its queued ancestors, child first.
    fn queued_ancestry_of(&self, id: &HeaderId) -> (r: Vec<HeaderId>)
        requires
            self.wf(),
        ensures
            r@ == queued_ancestry(self.entries_view(), *id),
    {
        let ghost s = self.entries@;
        let mut r: Vec<HeaderId> = Vec::new();
        let mut current = *id;
        let mut done = false;
        while !done
            invariant
                self.wf(),
                self.entries@ == s,
                !done ==> r@ + queued_ancestry(s, current) == queued_ancestry(s, *id),
                done ==> r@ == queued_ancestry(s, *id),
            decreases (if done {
                0
            } else {
                current.0 + 1
            }),
        {
            match self.find_entry(&current) {
                None => {
                    assert(queued_ancestry(s, current) =~= Seq::<HeaderId>::empty());
                    assert(r@ + Seq::<HeaderId>::empty() =~= r@);
                    done = true;
                },
                Some(i) => {
                    let parent = self.entries[i].header.parent_id();
                    proof {
                        assert(entry_parent(s[i as int]).0 + 1 == entry_id(s[i as int]).0);
                        assert(queued_ancestry(s, current) == seq![current] + queued_ancestry(s, parent));
                        assert(r@.push(current) + queued_ancestry(s, parent) =~= r@ + (seq![current]
                            + queued_ancestry(s, parent)));
                    }
                    r.push(current);
                    current = parent;
                },
            }
        }
        r
    }

    /// Drops the entries of the given headers.
    fn remove_entries(&mut self, ids: &Vec<HeaderId>)
        requires
            old(self).wf(),
        ensures
            final(self).entries_view() == entries_without(old(self).entries_view(), ids@),
            final(self).same_except_entries(*old(self)),
            entries_sorted(final(self).entries_view()),
            entries_unique(final(self).entries_view()),
            entries_well_formed(final(self).entries_view()),
            forall|x: HeaderId|
                #![trigger has_entry(final(self).entries_view(), x)]
                #![trigger has_entry(old(self).entries_view(), x)]
                has_entry(final(self).entries_view(), x) <==> (has_entry(old(self).entries_view(), x)
                    && !ids@.contains(x)),
    {
        let ghost s = self.entries@;
        let ghost mut j: int = 0;
        let mut i: usize = 0;
        proof {
            assert(s.take(0) =~= Seq::<QueueEntry<H, E>>::empty());
            assert(self.entries@ =~= entries_without(s.take(0), ids@) + s.skip(0));
        }
        while i < self.entries.len()
            invariant
                self.same_except_entries(*old(self)),
                s == old(self).entries_view(),
                0 <= j <= s.len(),
                i == entries_without(s.take(j), ids@).len(),
                self.entries@ == entries_without(s.take(j), ids@) + s.skip(j),
            decreases s.len() - j,
        {
            let ghost a = entries_without(s.take(j), ids@);
            proof {
                assert(s.take(j + 1).drop_last() =~= s.take(j));
                assert(s.take(j + 1).last() == s[j]);
                assert(self.entries@[i as int] == s[j]);
            }
            if contains_id(ids, &self.entries[i].header.id()) {
                let _ = self.entries.remove(i);
                proof {
                    assert(self.entries@ =~= a + s.skip(j + 1));
                }
            } else {
                i = i + 1;
                proof {
                    assert(a.push(s[j]) + s.skip(j + 1) =~= a + s.skip(j));
                }
            }
            proof {
                j = j + 1;
            }
        }
        proof {
            assert(j == s.len()) by {
                if j < s.len() {
                    assert(self.entries@.len() == i + s.skip(j).len());
                }
            }
            assert(s.take(j) =~= s);
            assert(self.entries@ =~= entries_without(s, ids@));
            lemma_entries_without(s, ids@);
        }
    }

    /// (parent, child) pairs of the queued children of each of the parents are
    /// appended to the synced children, and the parents to their keys.
    fn remember_synced_children(&mut self, parents: &Vec<HeaderId>)
        requires
            old(self).wf(),
        ensures
            final(self).wf(),
            final(self).entries_view() == old(self).entries_view(),
            final(self).synced_view() == old(self).synced_view(),
            final(self).synced_children_view() == old(self).synced_children_view() + chain_child_pairs(
                old(self).entries_view(),
                parents@,
            ),
            final(self).synced_children_keys_view() == old(self).synced_children_keys_view() + parents@,
            final(self).incomplete_view() == old(self).incomplete_view(),
            final(self).completion_view() == old(self).completion_view(),
            final(self).best_synced_view() == old(self).best_synced_view(),
            final(self).prune_border_view() == old(self).prune_border_view(),
    {
        let ghost s = self.entries@;
        let mut ci: usize = 0;
        while ci < parents.len()
            invariant
                self.wf(),
                self.entries@ == s,
                s == old(self).entries_view(),
                self.synced_view() == old(self).synced_view(),
                self.incomplete_view() == old(self).incomplete_view(),
                self.completion_view() == old(self).completion_view(),
                self.best_synced_view() == old(self).best_synced_view(),
                self.prune_border_view() == old(self).prune_border_view(),
                ci <= parents@.len(),
                self.synced_children@ == old(self).synced_children_view() + chain_child_pairs(
                    s,
                    parents@.take(ci as int),
                ),
                self.synced_children_keys@ == old(self).synced_children_keys_view() + parents@.take(ci as int),
            decreases parents@.len() - ci,
        {
            let parent = parents[ci];
            let ghost before = self.synced_children@;
            let mut k: usize = 0;
            while k < self.entries.len()
                invariant
                    self.wf(),
                    self.entries@ == s,
                    self.synced_view() == old(self).synced_view(),
                    self.incomplete_view() == old(self).incomplete_view(),
                    self.completion_view() == old(self).completion_view(),
                    self.best_synced_view() == old(self).best_synced_view(),
                    self.prune_border_view() == old(self).prune_border_view(),
                    self.synced_children_keys@ == old(self).synced_children_keys_view() + parents@.take(ci as int),
                    k <= s.len(),
                    children_one_above(before),
                    self.synced_children@ == before + child_pairs(s.take(k as int), parent),
                decreases s.len() - k,
            {
                assert(s.take(k + 1).drop_last() =~= s.take(k as int));
                if self.entries[k].header.parent_id() == parent {
                    let child = self.entries[k].header.id();
                    self.synced_children.push((parent, child));
                    proof {
                        assert(self.synced_children@ =~= before + child_pairs(s.take(k + 1), parent));
                    }
                }
                k = k + 1;
                proof {
                    lemma_child_pairs_one_above(s.take(k as int), parent);
                    lemma_concat_one_above(before, child_pairs(s.take(k as int), parent));
                }
            }
            self.synced_children_keys.push(parent);
            proof {
                assert(s.take(k as int) =~= s);
                assert(parents@.take(ci + 1).drop_last() =~= parents@.take(ci as int));
                assert(chain_child_pairs(s, parents@.take(ci + 1)) == chain_child_pairs(s, parents@.take(ci as int))
                    + child_pairs(s, parent));
                assert(self.synced_children@ =~= old(self).synced_children_view() + chain_child_pairs(
                    s,
                    parents@.take(ci + 1),
                ));
                assert(self.synced_children_keys@ =~= old(self).synced_children_keys_view() + parents@.take(ci + 1));
            }
            ci = ci + 1;
        }
        proof {
            assert(parents@.take(ci as int) =~= parents@);
        }
    }

    /// When we receive new Synced header from target node.
    fn header_synced(&mut self, id: &HeaderId)
        requires
            old(self).wf(),
        ensures
            final(self).wf(),
            final(self).state() == header_synced_spec(old(self).state(), *id),
    {
        let ghost st = self.state();
        let ghost s = self.entries@;
        let initial_status = self.status(id);
        if self.best_synced_number < id.0 {
            self.best_synced_number = id.0;
        }
        let chain = self.queued_ancestry_of(id);
        self.remember_synced_children(&chain);
        assert(self.entries@ == s);
        self.remove_entries(&chain);
        assert(forall|x: HeaderId| has_entry(self.entries@, x) <==> (has_entry(s, x) && !chain@.contains(x)));
        proof {
            lemma_ancestry_queued(s, *id);
        }
        let mut ci: usize = 0;
        let ghost synced0 = self.synced@;
        let ghost e1 = self.entries@;
        let ghost sc1 = self.synced_children@;
        let ghost k1 = self.synced_children_keys@;
        let ghost b1 = self.best_synced_number;
        while ci < chain.len()
            invariant
                ci <= chain@.len(),
                self.synced@ == synced0 + chain@.take(ci as int),
                self.entries@ == e1,
                self.synced_children@ == sc1,
                self.synced_children_keys@ == k1,
                self.best_synced_number == b1,
                self.incomplete_view() == st.incomplete,
                self.completion_view() == st.completion,
                self.prune_border == st.prune_border,
            decreases chain@.len() - ci,
        {
            self.synced.push(chain[ci]);
            proof {
                assert(self.synced@ =~= synced0 + chain@.take(ci + 1));
            }
            ci = ci + 1;
        }
        proof {
            assert(chain@.take(ci as int) =~= chain@);
        }
        if chain.len() == 0 && initial_status == HeaderStatus::Unknown {
            self.synced.push(*id);
        }
        proof {
            let newly = if chain@.len() == 0 && status_in(s, st.synced, *id) == HeaderStatus::Unknown {
                seq![*id]
            } else {
                Seq::<HeaderId>::empty()
            };
            assert(self.synced@ =~= st.synced + chain@ + newly);
            lemma_synced_after_sync(s, st.synced, chain@, newly, *id);
            assert(synced_not_queued(self.entries@, self.synced@)) by {
                assert forall|x: HeaderId| #[trigger] self.synced@.contains(x) implies !has_entry(self.entries@, x) by {
                    lemma_concat_contains(st.synced + chain@, newly, x);
                    lemma_concat_contains(st.synced, chain@, x);
                    if newly.contains(x) {
                        let k = choose|k: int| 0 <= k < newly.len() && newly[k] == x;
                        assert(newly[0] == x);
                        assert(x == *id);
                        if has_entry(s, x) {
                            let k = entry_index(s, x);
                            assert(0 <= k < s.len() && entry_id(s[k]) == x);
                            assert(is_queue_status(s[k].status));
                        }
                        assert(!has_entry(s, x));
                    } else if st.synced.contains(x) {
                        assert(synced_not_queued(s, st.synced));
                        assert(!has_entry(s, x));
                    } else {
                        assert(chain@.contains(x));
                    }
                    assert(!has_entry(self.entries_view(), x));
                }
            }
            lemma_chain_child_pairs_one_above(s, chain@);
            lemma_concat_one_above(st.synced_children, chain_child_pairs(s, chain@));
        }
        proof {
            assert forall|j: int| 0 <= j < e1.len() implies entry_id(#[trigger] e1[j]).0 >= st.prune_border by {
                let x = entry_id(e1[j]);
                assert(has_entry(e1, x));
                assert(has_entry(s, x));
                let i = choose|i: int| 0 <= i < s.len() && entry_id(#[trigger] s[i]) == x;
                assert(entry_id(s[i]).0 >= st.prune_border);
            }
        }
        let mut roots: Vec<HeaderId> = Vec::new();
        roots.push(*id);
        proof {
            assert(roots@ =~= seq![*id]);
            lemma_single_to_set(*id);
        }
        self.move_descendants(HeaderStatus::MaybeOrphan, HeaderStatus::Orphan, HeaderStatus::MaybeExtra, roots);
        proof {
            assert(self.state() == header_synced_spec(st, *id));
        }
    }

    /// Receive best header from the target node: the header is now known to the
    /// target node (see `header_synced_spec`).
    pub fn target_best_header_response(&mut self, id: &HeaderId)
        requires
            old(self).wf(),
        ensures
            final(self).wf(),
            final(self).state() == header_synced_spec(old(self).state(), *id),
    {
        self.header_synced(id)
    }
}


impl<H, E> QueuedHeaders<H, E> {
    /// Selects (recursive) all synced children of given header.
    fn select_synced_children(&self, id: &HeaderId) -> (r: Vec<HeaderId>)
        requires
            self.wf(),
        ensures
            forall|c: HeaderId| r@.contains(c) <==> synced_descendants(self.synced_children_view(), *id).contains(c),
    {
        let ghost pairs = self.synced_children@;
        let mut result: Vec<HeaderId> = Vec::new();
        let mut current: Vec<HeaderId> = Vec::new();
        current.push(*id);
        let ghost mut k: nat = 0;
        proof {
            assert(current@ =~= seq![*id]);
            assert forall|c: HeaderId| current@.contains(c) <==> child_level(pairs, *id, 0).contains(c) by {
                if current@.contains(c) {
                    let j = choose|j: int| 0 <= j < current@.len() && current@[j] == c;
                    assert(j == 0);
                }
                if c == *id {
                    assert(current@[0] == c);
                }
            }
        }
        while current.len() > 0
            invariant
                self.wf(),
                pairs == self.synced_children_view(),
                forall|c: HeaderId| current@.contains(c) <==> child_level(pairs, *id, k).contains(c),
                forall|c: HeaderId| current@.contains(c) ==> c.0 == id.0 + k,
                forall|c: HeaderId|
                    result@.contains(c) <==> exists|m: nat| 1 <= m <= k && #[trigger] child_level(pairs, *id, m).contains(c),
            decreases u64::MAX as int + 1 - id.0 - k,
        {
            proof {
                assert(current@.contains(current@[0]));
                assert(current@[0].0 == id.0 + k);
            }
            let ghost prev_result = result@;
            let ghost level = child_level(pairs, *id, (k + 1) as nat);
            let mut next: Vec<HeaderId> = Vec::new();
            let mut j: usize = 0;
            while j < self.synced_children.len()
                invariant
                    self.wf(),
                    pairs == self.synced_children@,
                    j <= pairs.len(),
                    forall|c: HeaderId| current@.contains(c) <==> child_level(pairs, *id, k).contains(c),
                    forall|c: HeaderId| current@.contains(c) ==> c.0 == id.0 + k,
                    forall|c: HeaderId|
                        next@.contains(c) <==> exists|i: int|
                            0 <= i < j && child_level(pairs, *id, k).contains(pairs[i].0) && pairs[i].1 == c,
                    forall|c: HeaderId| next@.contains(c) ==> c.0 == id.0 + k + 1,
                    forall|c: HeaderId| result@.contains(c) <==> (prev_result.contains(c) || next@.contains(c)),
                    forall|c: HeaderId|
                        prev_result.contains(c) <==> exists|m: nat| 1 <= m <= k && #[trigger] child_level(pairs, *id, m).contains(c),
                decreases pairs.len() - j,
            {
                let (parent, child) = self.synced_children[j];
                if contains_id(&current, &parent) {
                    let ghost before_next = next@;
                    let ghost before_result = result@;
                    next.push(child);
                    result.push(child);
                    proof {
                        assert(children_one_above(pairs));
                        assert(pairs[j as int].1.0 == pairs[j as int].0.0 + 1);
                        assert forall|c: HeaderId| next@.contains(c) <==> exists|i: int|
                            0 <= i < j + 1 && child_level(pairs, *id, k).contains(pairs[i].0) && pairs[i].1 == c by {
                            lemma_push_contains(before_next, child, c);
                        }
                        assert forall|c: HeaderId| next@.contains(c) implies c.0 == id.0 + k + 1 by {
                            lemma_push_contains(before_next, child, c);
                        }
                        assert forall|c: HeaderId| result@.contains(c) <==> (prev_result.contains(c) || next@.contains(c)) by {
                            lemma_push_contains(before_next, child, c);
                            lemma_push_contains(before_result, child, c);
                        }
                    }
                }
                j = j + 1;
            }
            proof {
                assert forall|c: HeaderId| next@.contains(c) <==> level.contains(c) by {
                    let prev = child_level(pairs, *id, k);
                    assert(level == Set::new(
                        |c: HeaderId| exists|j: int| 0 <= j < pairs.len() && prev.contains(pairs[j].0) && pairs[j].1 == c,
                    ));
                    if next@.contains(c) {
                        let i = choose|i: int|
                            0 <= i < j && child_level(pairs, *id, k).contains(pairs[i].0) && pairs[i].1 == c;
                        assert(0 <= i < pairs.len() && prev.contains(pairs[i].0) && pairs[i].1 == c);
                    }
                    if level.contains(c) {
                        let i = choose|i: int| 0 <= i < pairs.len() && prev.contains(pairs[i].0) && pairs[i].1 == c;
                        assert(0 <= i < j && child_level(pairs, *id, k).contains(pairs[i].0) && pairs[i].1 == c);
                    }
                }
                assert forall|c: HeaderId|
                    result@.contains(c) <==> exists|m: nat| 1 <= m <= k + 1 && #[trigger] child_level(pairs, *id, m).contains(c) by {
                    if next@.contains(c) {
                        assert(level.contains(c));
                        assert(child_level(pairs, *id, (k + 1) as nat).contains(c));
                    }
                    if prev_result.contains(c) {
                        let m = choose|m: nat| 1 <= m <= k && #[trigger] child_level(pairs, *id, m).contains(c);
                        assert(1 <= m <= k + 1 && child_level(pairs, *id, m).contains(c));
                    }
                    if exists|m: nat| 1 <= m <= k + 1 && #[trigger] child_level(pairs, *id, m).contains(c) {
                        let m = choose|m: nat| 1 <= m <= k + 1 && #[trigger] child_level(pairs, *id, m).contains(c);
                        if m == k + 1 {
                            assert(level.contains(c));
                            assert(next@.contains(c));
                        } else {
                            assert(prev_result.contains(c));
                        }
                    }
                }
                k = k + 1;
            }
            current = next;
        }
        proof {
            assert forall|c: HeaderId| !child_level(pairs, *id, k).contains(c) by {
                assert(!current@.contains(c));
            }
            assert forall|c: HeaderId| result@.contains(c) <==> synced_descendants(pairs, *id).contains(c) by {
                if synced_descendants(pairs, *id).contains(c) {
                    let m = choose|m: nat| m >= 1 && #[trigger] child_level(pairs, *id, m).contains(c);
                    if m > k {
                        lemma_level_empty_after(pairs, *id, k, m);
                    }
                }
                if result@.contains(c) {
                    let m = choose|m: nat| 1 <= m <= k && #[trigger] child_level(pairs, *id, m).contains(c);
                    assert(m >= 1 && child_level(pairs, *id, m).contains(c));
                }
            }
        }
        result
    }

    /// Marks given headers incomplete (see `add_incomplete_one`), each in turn.
    pub fn add_incomplete_headers(&mut self, make_header_incomplete: bool, new_incomplete_headers: Vec<HeaderId>)
        requires
            old(self).wf(),
        ensures
            final(self).wf(),
            final(self).state() == add_incomplete_spec(old(self).state(), make_header_incomplete, new_incomplete_headers@),
    {
        let ids = new_incomplete_headers;
        let mut i: usize = 0;
        while i < ids.len()
            invariant
                self.wf(),
                i <= ids@.len(),
                self.state() == add_incomplete_spec(old(self).state(), make_header_incomplete, ids@.take(i as int)),
            decreases ids@.len() - i,
        {
            let id = ids[i];
            let ghost st = self.state();
            if make_header_incomplete {
                self.header_synced(&id);
            }
            let ghost st1 = self.state();
            let mut roots = self.select_synced_children(&id);
            let ghost r0 = roots@;
            roots.push(id);
            proof {
                assert forall|x: HeaderId| roots@.to_set().contains(x) <==> synced_descendants(st1.synced_children, id).insert(
                    id,
                ).contains(x) by {
                    lemma_push_contains(r0, id, x);
                }
                assert(roots@.to_set() =~= synced_descendants(st1.synced_children, id).insert(id));
            }
            self.move_descendants(HeaderStatus::Ready, HeaderStatus::Submitted, HeaderStatus::Incomplete, roots);
            if make_header_incomplete {
                fetch_times_insert(&mut self.incomplete_headers, (id.0, id.1), None);
            }
            proof {
                assert(ids@.take(i + 1).drop_last() =~= ids@.take(i as int));
                assert(self.state() == add_incomplete_one(st, make_header_incomplete, id));
            }
            i = i + 1;
        }
        proof {
            assert(ids@.take(i as int) =~= ids@);
        }
    }

    /// When incomplete headers ids are received from target node (see
    /// `incomplete_headers_response_spec`).
    pub fn incomplete_headers_response(&mut self, ids: Vec<HeaderId>)
        requires
            old(self).wf(),
        ensures
            final(self).wf(),
            final(self).state() == incomplete_headers_response_spec(old(self).state(), ids@),
    {
        let ghost st0 = self.state();
        let mut new_ids: Vec<HeaderId> = Vec::new();
        let mut i: usize = 0;
        while i < ids.len()
            invariant
                self.state() == st0,
                i <= ids@.len(),
                new_ids@ == new_incomplete_ids(st0, ids@.take(i as int)),
            decreases ids@.len() - i,
        {
            assert(ids@.take(i + 1).drop_last() =~= ids@.take(i as int));
            let k = (ids[i].0, ids[i].1);
            if !fetch_times_contains(&self.incomplete_headers, k) && !completions_contains(&self.completion_data, k) {
                new_ids.push(ids[i]);
            }
            i = i + 1;
        }
        assert(ids@.take(i as int) =~= ids@);
        self.add_incomplete_headers(true, new_ids);
        let ghost st1 = self.state();
        let incomplete_keys = fetch_times_keys(&self.incomplete_headers);
        let completion_keys = completions_keys(&self.completion_data);
        let ghost all_keys = keys_of(st1.incomplete) + keys_of(st1.completion);
        let ghost candidates = all_keys.map_values(|k: (u64, u64)| id_of_key(k));
        let mut completed: Vec<HeaderId> = Vec::new();
        let mut j: usize = 0;
        while j < incomplete_keys.len()
            invariant
                incomplete_keys@ == keys_of(st1.incomplete),
                completion_keys@ == keys_of(st1.completion),
                all_keys == keys_of(st1.incomplete) + keys_of(st1.completion),
                candidates == all_keys.map_values(|k: (u64, u64)| id_of_key(k)),
                candidates.len() == all_keys.len(),
                j <= incomplete_keys@.len(),
                completed@ == ids_not_in(candidates.take(j as int), ids@),
            decreases incomplete_keys@.len() - j,
        {
            let k = incomplete_keys[j];
            let candidate = HeaderId(k.0, k.1);
            proof {
                assert(all_keys[j as int] == k);
                assert(candidates[j as int] == candidate);
                assert(candidates.take(j + 1).drop_last() =~= candidates.take(j as int));
            }
            if !contains_id(&ids, &candidate) {
                completed.push(candidate);
            }
            j = j + 1;
        }
        let mut j2: usize = 0;
        while j2 < completion_keys.len()
            invariant
                incomplete_keys@ == keys_of(st1.incomplete),
                completion_keys@ == keys_of(st1.completion),
                all_keys == keys_of(st1.incomplete) + keys_of(st1.completion),
                candidates == all_keys.map_values(|k: (u64, u64)| id_of_key(k)),
                candidates.len() == all_keys.len(),
                j == incomplete_keys@.len(),
                j2 <= completion_keys@.len(),
                completed@ == ids_not_in(candidates.take(j + j2), ids@),
            decreases completion_keys@.len() - j2,
        {
            let k = completion_keys[j2];
            let candidate = HeaderId(k.0, k.1);
            proof {
                assert(all_keys[j + j2] == k);
                assert(candidates[j + j2] == candidate);
                assert(candidates.take(j + j2 + 1).drop_last() =~= candidates.take(j + j2));
            }
            if !contains_id(&ids, &candidate) {
                completed.push(candidate);
            }
            j2 = j2 + 1;
        }
        proof {
            assert(candidates.take(j + j2) =~= candidates);
            assert(completed@ == just_completed(st1, ids@));
        }
        let mut c: usize = 0;
        while c < completed.len()
            invariant
                self.wf(),
                c <= completed@.len(),
                self.state() == complete_spec(st1, completed@.take(c as int)),
            decreases completed@.len() - c,
        {
            let id = completed[c];
            let ghost st = self.state();
            let mut roots = self.select_synced_children(&id);
            let ghost r0 = roots@;
            roots.push(id);
            proof {
                assert forall|x: HeaderId| roots@.to_set().contains(x) <==> synced_descendants(st.synced_children, id).insert(
                    id,
                ).contains(x) by {
                    lemma_push_contains(r0, id, x);
                }
                assert(roots@.to_set() =~= synced_descendants(st.synced_children, id).insert(id));
            }
            self.move_descendants(HeaderStatus::Incomplete, HeaderStatus::Incomplete, HeaderStatus::Ready, roots);
            let _ = fetch_times_remove(&mut self.incomplete_headers, (id.0, id.1));
            let _ = completions_remove(&mut self.completion_data, (id.0, id.1));
            proof {
                assert(completed@.take(c + 1).drop_last() =~= completed@.take(c as int));
                assert(self.state() == complete_one(st, id));
            }
            c = c + 1;
        }
        proof {
            assert(completed@.take(c as int) =~= completed@);
        }
    }
}

/// Once the target node has reported a header as its best one, that header is
/// synced (see `QueuedHeaders::target_best_header_response`).
pub proof fn lemma_reported_best_header_is_synced<H, E>(queue: QueuedHeaders<H, E>, id: HeaderId)
    requires
        queue.wf(),
    ensures
        ({
            let after = header_synced_spec(queue.state(), id);
            status_in(after.entries, after.synced, id) == HeaderStatus::Synced
        }),
{
    let st = queue.state();
    let s = st.entries;
    let chain = queued_ancestry(s, id);
    lemma_entries_without(s, chain);
    let w = entries_without(s, chain);
    let moved = move_descendants_spec(w, HeaderStatus::MaybeOrphan, HeaderStatus::Orphan, HeaderStatus::MaybeExtra, set![id]);
    if has_entry(s, id) {
        assert(chain[0] == id);
        assert(chain.contains(id));
    }
    assert(!has_entry(w, id));
    assert(!has_entry(moved, id)) by {
        if has_entry(moved, id) {
            let i = choose|i: int| 0 <= i < moved.len() && #[trigger] entry_id(moved[i]) == id;
            assert(entry_id(moved[i]) == entry_id(w[i]));
        }
    }
    let after = header_synced_spec(st, id);
    assert(after.entries == moved);
    let newly = if chain.len() == 0 && status_in(s, st.synced, id) == HeaderStatus::Unknown {
        seq![id]
    } else {
        Seq::empty()
    };
    assert(after.synced == st.synced + chain + newly);
    if has_entry(s, id) {
        assert((st.synced + chain)[st.synced.len() as int] == id);
        assert((st.synced + chain + newly)[st.synced.len() as int] == id);
    } else if st.synced.contains(id) {
        let j = choose|j: int| 0 <= j < st.synced.len() && st.synced[j] == id;
        assert((st.synced + chain + newly)[j] == id);
    } else {
        assert(chain.len() == 0);
        assert((st.synced + chain + newly)[st.synced.len() as int] == id);
    }
}

/// Pruning forgets every queued header below the border.
pub proof fn lemma_pruned_entries_above_border<H, E>(
    before: Seq<QueueEntry<H, E>>,
    after: Seq<QueueEntry<H, E>>,
    border: u64,
)
    requires
        entries_sorted(before),
        entries_pruned(before, after, border),
    ensures
        forall|i: int| 0 <= i < after.len() ==> entry_id(#[trigger] after[i]).0 >= border,
        after.len() <= before.len(),
{
    let k = choose|k: int|
        0 <= k <= before.len() && after == before.skip(k) && (forall|j: int|
            0 <= j < k ==> entry_id(#[trigger] before[j]).0 < border) && (forall|j: int|
            k <= j < before.len() ==> entry_id(#[trigger] before[j]).0 >= border);
    assert forall|i: int| 0 <= i < after.len() implies entry_id(#[trigger] after[i]).0 >= border by {
        assert(after[i] == before[k + i]);
    }
}

/// Pruning at a border forgets every header below it: its status becomes
/// unknown; every header at or above the border keeps its status. (`prune`
/// states its entries and synced ids as `entries_pruned` and `ids_from`.)
pub proof fn lemma_prune_statuses<H, E>(
    before: Seq<QueueEntry<H, E>>,
    synced_before: Seq<HeaderId>,
    after: Seq<QueueEntry<H, E>>,
    border: u64,
    id: HeaderId,
)
    requires
        entries_sorted(before),
        entries_unique(before),
        entries_pruned(before, after, border),
    ensures
        id.0 < border ==> status_in(after, ids_from(synced_before, border), id) == HeaderStatus::Unknown,
        id.0 >= border ==> status_in(after, ids_from(synced_before, border), id) == status_in(
            before,
            synced_before,
            id,
        ),
{
    let k = choose|k: int|
        0 <= k <= before.len() && after == before.skip(k) && (forall|j: int|
            0 <= j < k ==> entry_id(#[trigger] before[j]).0 < border) && (forall|j: int|
            k <= j < before.len() ==> entry_id(#[trigger] before[j]).0 >= border);
    lemma_ids_from(synced_before, border);
    let synced_after = ids_from(synced_before, border);
    if has_entry(after, id) {
        let i = entry_index(after, id);
        assert(after[i] == before[k + i]);
        assert(has_entry(before, id));
        let j = entry_index(before, id);
        assert(entry_id(before[j]) == entry_id(before[k + i]));
        assert(j == k + i);
    } else {
        if id.0 >= border && has_entry(before, id) {
            let j = entry_index(before, id);
            assert(j >= k);
            assert(after[j - k] == before[j]);
            assert(has_entry(after, id));
        }
    }
}

/// The headers with a status are as many as the entries with it.
pub proof fn lemma_headers_with_status_len<H, E>(s: Seq<QueueEntry<H, E>>, status: HeaderStatus)
    ensures
        headers_with_status(s, status).len() == count_status(s, status),
    decreases s.len(),
{
    if s.len() > 0 {
        lemma_headers_with_status_len(s.drop_last(), status);
    }
}

/// Number of entries with a status is at most the number of entries.
pub proof fn lemma_count_status_le<H, E>(s: Seq<QueueEntry<H, E>>, status: HeaderStatus)
    ensures
        count_status(s, status) <= s.len(),
    decreases s.len(),
{
    if s.len() > 0 {
        lemma_count_status_le(s.drop_last(), status);
    }
}

/// The headers with a status in a prefix that ends with such a header.
proof fn lemma_headers_with_status_prefix<H, E>(s: Seq<QueueEntry<H, E>>, status: HeaderStatus, i: int)
    requires
        0 <= i < s.len(),
        s[i].status == status,
        headers_with_status(s.take(i), status).len() == 0,
    ensures
        headers_with_status(s, status).len() > 0,
        headers_with_status(s, status)[0] == s[i].header,
    decreases s.len(),
{
    if s.len() - 1 == i {
        assert(s.drop_last() =~= s.take(i));
    } else {
        assert(s.drop_last().take(i) =~= s.take(i));
        lemma_headers_with_status_prefix(s.drop_last(), status, i);
    }
}

/// A prefix that ends with a header of a status gives a positive count.
proof fn lemma_count_positive<H, E>(s: Seq<QueueEntry<H, E>>, status: HeaderStatus, i: int)
    requires
        0 <= i < s.len(),
        s[i].status == status,
    ensures
        count_status(s, status) > 0,
    decreases s.len(),
{
    if s.len() - 1 != i {
        lemma_count_positive(s.drop_last(), status, i);
    }
}

/// Entries after the header `id`, if it is in the `source` sub-queue, has
/// moved to the `destination` sub-queue.
pub open spec fn moved_entries<H, E>(
    s: Seq<QueueEntry<H, E>>,
    id: HeaderId,
    source: HeaderStatus,
    destination: HeaderStatus,
) -> Seq<QueueEntry<H, E>> {
    if has_entry(s, id) && s[entry_index(s, id)].status == source {
        s.update(entry_index(s, id), QueueEntry { header: s[entry_index(s, id)].header, status: destination })
    } else {
        s
    }
}

/// Entries after each of the headers, in turn, has moved from the Ready queue to
/// the Submitted queue.
pub open spec fn submitted_entries<H, E>(s: Seq<QueueEntry<H, E>>, ids: Seq<HeaderId>) -> Seq<QueueEntry<H, E>>
    decreases ids.len(),
{
    if ids.len() == 0 {
        s
    } else {
        moved_entries(submitted_entries(s, ids.drop_last()), ids.last(), HeaderStatus::Ready, HeaderStatus::Submitted)
    }
}

/// Replacing an entry by one for the same header keeps the entries consistent.
proof fn lemma_update_keeps_wf<H, E>(s: Seq<QueueEntry<H, E>>, i: int, e: QueueEntry<H, E>)
    requires
        entries_sorted(s),
        entries_unique(s),
        entries_well_formed(s),
        0 <= i < s.len(),
        entry_id(e) == entry_id(s[i]),
        entry_parent(e) == entry_parent(s[i]),
        is_queue_status(e.status),
    ensures
        entries_sorted(s.update(i, e)),
        entries_unique(s.update(i, e)),
        entries_well_formed(s.update(i, e)),
        forall|id: HeaderId| has_entry(s.update(i, e), id) <==> has_entry(s, id),
{
    let t = s.update(i, e);
    assert forall|j: int| 0 <= j < t.len() implies #[trigger] t[j] == if j == i {
        e
    } else {
        s[j]
    } by {}
    assert forall|j: int| 0 <= j < t.len() implies is_queue_status(#[trigger] t[j].status) && entry_parent(t[j]).0
        + 1 == entry_id(t[j]).0 by {
        if j != i {
            assert(is_queue_status(s[j].status));
        }
    }
    assert forall|id: HeaderId| has_entry(t, id) <==> has_entry(s, id) by {
        if has_entry(t, id) {
            let k = choose|k: int| 0 <= k < t.len() && #[trigger] entry_id(t[k]) == id;
            assert(entry_id(s[k]) == id);
        }
        if has_entry(s, id) {
            let k = choose|k: int| 0 <= k < s.len() && #[trigger] entry_id(s[k]) == id;
            assert(entry_id(t[k]) == id);
        }
    }
}

/// Inserting an entry for a new header at its ordered position keeps the
/// entries consistent.
proof fn lemma_insert_keeps_wf<H, E>(s: Seq<QueueEntry<H, E>>, p: int, e: QueueEntry<H, E>)
    requires
        entries_sorted(s),
        entries_unique(s),
        entries_well_formed(s),
        0 <= p <= s.len(),
        forall|j: int| 0 <= j < p ==> entry_id(#[trigger] s[j]).0 <= entry_id(e).0,
        forall|j: int| p <= j < s.len() ==> entry_id(#[trigger] s[j]).0 > entry_id(e).0,
        !has_entry(s, entry_id(e)),
        is_queue_status(e.status),
        entry_parent(e).0 + 1 == entry_id(e).0,
    ensures
        entries_sorted(s.insert(p, e)),
        entries_unique(s.insert(p, e)),
        entries_well_formed(s.insert(p, e)),
        forall|id: HeaderId| has_entry(s.insert(p, e), id) <==> (has_entry(s, id) || id == entry_id(e)),
{
    let t = s.insert(p, e);
    assert forall|j: int| 0 <= j < t.len() implies #[trigger] t[j] == if j < p {
        s[j]
    } else if j == p {
        e
    } else {
        s[j - 1]
    } by {}
    assert forall|i: int, j: int| 0 <= i <= j < t.len() implies entry_id(#[trigger] t[i]).0 <= entry_id(
        #[trigger] t[j],
    ).0 by {
        if i < p && j > p {
            assert(entry_id(s[i]).0 <= entry_id(e).0);
        }
        if i < p && j < p {
            assert(entry_id(s[i]).0 <= entry_id(s[j]).0);
        }
        if i > p && j > p {
            assert(entry_id(s[i - 1]).0 <= entry_id(s[j - 1]).0);
        }
    }
    assert forall|i: int, j: int|
        0 <= i < t.len() && 0 <= j < t.len() && i != j implies entry_id(#[trigger] t[i]) != entry_id(
        #[trigger] t[j],
    ) by {
        if i == p {
            let k = if j < p {
                j
            } else {
                j - 1
            };
            assert(entry_id(s[k]) != entry_id(e));
        } else if j == p {
            let k = if i < p {
                i
            } else {
                i - 1
            };
            assert(entry_id(s[k]) != entry_id(e));
        } else {
            let ki = if i < p {
                i
            } else {
                i - 1
            };
            let kj = if j < p {
                j
            } else {
                j - 1
            };
            assert(entry_id(s[ki]) != entry_id(s[kj]));
        }
    }
    assert forall|id: HeaderId| has_entry(t, id) <==> (has_entry(s, id) || id == entry_id(e)) by {
        if has_entry(t, id) {
            let k = choose|k: int| 0 <= k < t.len() && #[trigger] entry_id(t[k]) == id;
            if k < p {
                assert(entry_id(s[k]) == id);
            } else if k > p {
                assert(entry_id(s[k - 1]) == id);
            }
        }
        if has_entry(s, id) {
            let k = choose|k: int| 0 <= k < s.len() && #[trigger] entry_id(s[k]) == id;
            if k < p {
                assert(entry_id(t[k]) == id);
            } else {
                assert(entry_id(t[k + 1]) == id);
            }
        }
        if id == entry_id(e) {
            assert(entry_id(t[p]) == id);
        }
    }
}

/// Dropping a key that is not there changes nothing.
proof fn lemma_without_absent_key<V>(s: Seq<((u64, u64), V)>, k: (u64, u64))
    requires
        !keys_of(s).contains(k),
    ensures
        without_key(s, k) == s,
    decreases s.len(),
{
    reveal(Seq::filter);
    if s.len() > 0 {
        assert(keys_of(s)[s.len() - 1] == s.last().0);
        assert(s.last().0 != k);
        assert forall|x: (u64, u64)| keys_of(s.drop_last()).contains(x) implies keys_of(s).contains(x) by {
            let j = choose|j: int| 0 <= j < keys_of(s.drop_last()).len() && keys_of(s.drop_last())[j] == x;
            assert(keys_of(s)[j] == x);
        }
        lemma_without_absent_key(s.drop_last(), k);
        assert(s.drop_last().push(s.last()) =~= s);
    }
}

/// What `entries_without` keeps.
proof fn lemma_entries_without<H, E>(s: Seq<QueueEntry<H, E>>, ids: Seq<HeaderId>)
    requires
        entries_sorted(s),
        entries_unique(s),
        entries_well_formed(s),
    ensures
        entries_sorted(entries_without(s, ids)),
        entries_unique(entries_without(s, ids)),
        entries_well_formed(entries_without(s, ids)),
        forall|k: int|
            0 <= k < entries_without(s, ids).len() ==> exists|j: int|
                0 <= j < s.len() && #[trigger] entries_without(s, ids)[k] == s[j],
        forall|x: HeaderId| has_entry(entries_without(s, ids), x) <==> (has_entry(s, x) && !ids.contains(x)),
    decreases s.len(),
{
    if s.len() > 0 {
        let p = s.drop_last();
        let l = s.last();
        assert(entries_sorted(p)) by {
            assert forall|i: int, j: int| 0 <= i <= j < p.len() implies entry_id(#[trigger] p[i]).0 <= entry_id(
                #[trigger] p[j],
            ).0 by {
                assert(entry_id(s[i]).0 <= entry_id(s[j]).0);
            }
        }
        assert(entries_unique(p)) by {
            assert forall|i: int, j: int|
                0 <= i < p.len() && 0 <= j < p.len() && i != j implies entry_id(#[trigger] p[i]) != entry_id(
                #[trigger] p[j],
            ) by {
                assert(entry_id(s[i]) != entry_id(s[j]));
            }
        }
        assert(entries_well_formed(p)) by {
            assert forall|i: int| 0 <= i < p.len() implies is_queue_status(#[trigger] p[i].status) && entry_parent(
                p[i],
            ).0 + 1 == entry_id(p[i]).0 by {
                assert(is_queue_status(s[i].status));
            }
        }
        lemma_entries_without(p, ids);
        let q = entries_without(p, ids);
        assert forall|x: HeaderId| has_entry(s, x) <==> (has_entry(p, x) || x == entry_id(l)) by {
            if has_entry(s, x) {
                let k = choose|k: int| 0 <= k < s.len() && #[trigger] entry_id(s[k]) == x;
                if k < p.len() {
                    assert(entry_id(p[k]) == x);
                }
            }
            if has_entry(p, x) {
                let k = choose|k: int| 0 <= k < p.len() && #[trigger] entry_id(p[k]) == x;
                assert(entry_id(s[k]) == x);
            }
            if x == entry_id(l) {
                assert(entry_id(s[s.len() - 1]) == x);
            }
        }
        assert(!has_entry(p, entry_id(l))) by {
            if has_entry(p, entry_id(l)) {
                let k = choose|k: int| 0 <= k < p.len() && #[trigger] entry_id(p[k]) == entry_id(l);
                assert(entry_id(s[k]) != entry_id(s[s.len() - 1]));
            }
        }
        if !ids.contains(entry_id(l)) {
            let t = q.push(l);
            assert(entries_without(s, ids) == t);
            assert forall|k: int| 0 <= k < t.len() implies exists|j: int| 0 <= j < s.len() && #[trigger] t[k] == s[j] by {
                if k < q.len() {
                    let j = choose|j: int| 0 <= j < p.len() && #[trigger] q[k] == p[j];
                    assert(t[k] == s[j]);
                } else {
                    assert(t[k] == s[s.len() - 1]);
                }
            }
            assert forall|k: int| 0 <= k < q.len() implies entry_id(#[trigger] q[k]).0 <= entry_id(l).0 && entry_id(
                q[k],
            ) != entry_id(l) by {
                let j = choose|j: int| 0 <= j < p.len() && #[trigger] q[k] == p[j];
                assert(entry_id(s[j]).0 <= entry_id(s[s.len() - 1]).0);
                assert(entry_id(s[j]) != entry_id(s[s.len() - 1]));
            }
            assert forall|i: int, j: int| 0 <= i <= j < t.len() implies entry_id(#[trigger] t[i]).0 <= entry_id(
                #[trigger] t[j],
            ).0 by {
                if j == q.len() && i < q.len() {
                    assert(entry_id(q[i]).0 <= entry_id(l).0);
                }
            }
            assert forall|i: int, j: int|
                0 <= i < t.len() && 0 <= j < t.len() && i != j implies entry_id(#[trigger] t[i]) != entry_id(
                #[trigger] t[j],
            ) by {
                if j == q.len() {
                    assert(entry_id(q[i]) != entry_id(l));
                } else if i == q.len() {
                    assert(entry_id(q[j]) != entry_id(l));
                }
            }
            assert forall|i: int| 0 <= i < t.len() implies is_queue_status(#[trigger] t[i].status) && entry_parent(
                t[i],
            ).0 + 1 == entry_id(t[i]).0 by {
                if i < q.len() {
                    assert(is_queue_status(q[i].status));
                } else {
                    assert(is_queue_status(s[s.len() - 1].status));
                }
            }
            assert forall|x: HeaderId| has_entry(t, x) <==> (has_entry(q, x) || x == entry_id(l)) by {
                if has_entry(t, x) {
                    let k = choose|k: int| 0 <= k < t.len() && #[trigger] entry_id(t[k]) == x;
                    if k < q.len() {
                        assert(entry_id(q[k]) == x);
                    }
                }
                if has_entry(q, x) {
                    let k = choose|k: int| 0 <= k < q.len() && #[trigger] entry_id(q[k]) == x;
                    assert(entry_id(t[k]) == x);
                }
                if x == entry_id(l) {
                    assert(entry_id(t[q.len() as int]) == x);
                }
            }
        } else {
            assert(entries_without(s, ids) == q);
            assert forall|k: int| 0 <= k < q.len() implies exists|j: int| 0 <= j < s.len() && #[trigger] q[k] == s[j] by {
                let j = choose|j: int| 0 <= j < p.len() && #[trigger] q[k] == p[j];
                assert(q[k] == s[j]);
            }
        }
    }
}

/// Every header of the ancestry is queued, and their numbers go down one by one.
proof fn lemma_ancestry_queued<H, E>(s: Seq<QueueEntry<H, E>>, id: HeaderId)
    requires
        entries_well_formed(s),
        entries_unique(s),
    ensures
        forall|k: int|
            0 <= k < queued_ancestry(s, id).len() ==> has_entry(s, #[trigger] queued_ancestry(s, id)[k])
                && queued_ancestry(s, id)[k].0 + k == id.0,
        queued_ancestry(s, id).no_duplicates(),
    decreases id.0,
{
    if has_entry(s, id) {
        let i = entry_index(s, id);
        assert(0 <= i < s.len() && entry_id(s[i]) == id);
        let parent = entry_parent(s[i]);
        assert(is_queue_status(s[i].status));
        assert(entry_parent(s[i]).0 + 1 == entry_id(s[i]).0);
        lemma_ancestry_queued(s, parent);
        let rest = queued_ancestry(s, parent);
        let a = queued_ancestry(s, id);
        assert(a == seq![id] + rest);
        assert forall|k: int| 0 <= k < a.len() implies has_entry(s, #[trigger] a[k]) && a[k].0 + k == id.0 by {
            if k > 0 {
                assert(a[k] == rest[k - 1]);
            }
        }
        assert forall|x: int, y: int| 0 <= x < a.len() && 0 <= y < a.len() && x != y implies a[x] != a[y] by {
            assert(a[x].0 + x == id.0);
            assert(a[y].0 + y == id.0);
        }
    }
}

/// What the synced headers are after a header is synced: still without
/// duplicates.
proof fn lemma_synced_after_sync<H, E>(
    s: Seq<QueueEntry<H, E>>,
    synced: Seq<HeaderId>,
    chain: Seq<HeaderId>,
    newly: Seq<HeaderId>,
    id: HeaderId,
)
    requires
        synced.no_duplicates(),
        synced_not_queued(s, synced),
        chain.no_duplicates(),
        forall|k: int| 0 <= k < chain.len() ==> has_entry(s, #[trigger] chain[k]),
        newly.len() == 0 || (newly == seq![id] && chain.len() == 0 && status_in(s, synced, id)
            == HeaderStatus::Unknown),
    ensures
        (synced + chain + newly).no_duplicates(),
{
    let t = synced + chain + newly;
    assert forall|x: int, y: int| 0 <= x < t.len() && 0 <= y < t.len() && x != y implies t[x] != t[y] by {
        let ls = synced.len() as int;
        let lc = chain.len() as int;
        if x < ls && y >= ls && y < ls + lc {
            assert(synced.contains(t[x]));
            assert(has_entry(s, chain[y - ls]));
        } else if y < ls && x >= ls && x < ls + lc {
            assert(synced.contains(t[y]));
            assert(has_entry(s, chain[x - ls]));
        } else if x >= ls + lc || y >= ls + lc {
            if x < ls {
                assert(synced.contains(synced[x]));
            }
            if y < ls {
                assert(synced.contains(synced[y]));
            }
        }
    }
}

/// The pairs of the queued children are one block apart.
proof fn lemma_child_pairs_one_above<H, E>(s: Seq<QueueEntry<H, E>>, parent: HeaderId)
    requires
        entries_well_formed(s),
    ensures
        children_one_above(child_pairs(s, parent)),
        forall|k: int|
            0 <= k < child_pairs(s, parent).len() ==> (#[trigger] child_pairs(s, parent)[k]).0 == parent,
    decreases s.len(),
{
    if s.len() > 0 {
        let p = s.drop_last();
        assert(entries_well_formed(p)) by {
            assert forall|i: int| 0 <= i < p.len() implies is_queue_status(#[trigger] p[i].status) && entry_parent(
                p[i],
            ).0 + 1 == entry_id(p[i]).0 by {
                assert(is_queue_status(s[i].status));
            }
        }
        lemma_child_pairs_one_above(p, parent);
        assert(is_queue_status(s[s.len() - 1].status));
        assert(entry_parent(s[s.len() - 1]).0 + 1 == entry_id(s[s.len() - 1]).0);
    }
}

/// The pairs of the queued children of several parents are one block apart.
proof fn lemma_chain_child_pairs_one_above<H, E>(s: Seq<QueueEntry<H, E>>, parents: Seq<HeaderId>)
    requires
        entries_well_formed(s),
    ensures
        children_one_above(chain_child_pairs(s, parents)),
    decreases parents.len(),
{
    if parents.len() > 0 {
        lemma_chain_child_pairs_one_above(s, parents.drop_last());
        lemma_child_pairs_one_above(s, parents.last());
        lemma_concat_one_above(chain_child_pairs(s, parents.drop_last()), child_pairs(s, parents.last()));
    }
}

/// Concatenation keeps pairs one block apart.
proof fn lemma_concat_one_above(a: Seq<(HeaderId, HeaderId)>, b: Seq<(HeaderId, HeaderId)>)
    requires
        children_one_above(a),
        children_one_above(b),
    ensures
        children_one_above(a + b),
{
    assert forall|k: int| 0 <= k < (a + b).len() implies (#[trigger] (a + b)[k]).1.0 == (a + b)[k].0.0 + 1 by {
        if k < a.len() {
            assert((a + b)[k] == a[k]);
        } else {
            assert((a + b)[k] == b[k - a.len()]);
        }
    }
}

/// What a concatenation contains.
proof fn lemma_concat_contains<A>(a: Seq<A>, b: Seq<A>, x: A)
    ensures
        (a + b).contains(x) <==> (a.contains(x) || b.contains(x)),
{
    if (a + b).contains(x) {
        let k = choose|k: int| 0 <= k < (a + b).len() && (a + b)[k] == x;
        if k < a.len() {
            assert(a[k] == x);
        } else {
            assert(b[k - a.len()] == x);
        }
    }
    if a.contains(x) {
        let k = choose|k: int| 0 <= k < a.len() && a[k] == x;
        assert((a + b)[k] == x);
    }
    if b.contains(x) {
        let k = choose|k: int| 0 <= k < b.len() && b[k] == x;
        assert((a + b)[k + a.len()] == x);
    }
}

/// Once a generation of synced descendants is empty, so are all later ones.
proof fn lemma_level_empty_after(pairs: Seq<(HeaderId, HeaderId)>, root: HeaderId, k: nat, m: nat)
    requires
        forall|c: HeaderId| !child_level(pairs, root, k).contains(c),
        m > k,
    ensures
        forall|c: HeaderId| !child_level(pairs, root, m).contains(c),
    decreases m - k,
{
    if m > k + 1 {
        lemma_level_empty_after(pairs, root, k, (m - 1) as nat);
    }
    assert forall|c: HeaderId| !child_level(pairs, root, m).contains(c) by {
        let prev = child_level(pairs, root, (m - 1) as nat);
        assert(forall|c: HeaderId| !prev.contains(c));
    }
}

/// A one-element sequence as a set.
proof fn lemma_single_to_set(x: HeaderId)
    ensures
        seq![x].to_set() == set![x],
{
    assert forall|y: HeaderId| seq![x].to_set().contains(y) <==> set![x].contains(y) by {
        if seq![x].contains(y) {
            let k = choose|k: int| 0 <= k < 1 && seq![x][k] == y;
        }
        if y == x {
            assert(seq![x][0] == y);
        }
    }
    assert(seq![x].to_set() =~= set![x]);
}

/// A pushed sequence contains what the sequence contains, and the pushed value.
proof fn lemma_push_contains<A>(s: Seq<A>, a: A, x: A)
    ensures
        s.push(a).contains(x) <==> (s.contains(x) || x == a),
{
    if s.contains(x) {
        let k = choose|k: int| 0 <= k < s.len() && s[k] == x;
        assert(s.push(a)[k] == x);
    }
    if x == a {
        assert(s.push(a)[s.len() as int] == x);
    }
    if s.push(a).contains(x) {
        let k = choose|k: int| 0 <= k < s.push(a).len() && s.push(a)[k] == x;
        if k < s.len() {
            assert(s[k] == x);
        }
    }
}

/// Dropping a key twice is dropping it once.
proof fn lemma_without_key_twice<V>(s: Seq<((u64, u64), V)>, k: (u64, u64))
    ensures
        without_key(without_key(s, k), k) == without_key(s, k),
    decreases s.len(),
{
    reveal(Seq::filter);
    if s.len() > 0 {
        lemma_without_key_twice(s.drop_last(), k);
        let f = without_key(s.drop_last(), k);
        if s.last().0 != k {
            assert(without_key(s, k) == f.push(s.last()));
            assert(f.push(s.last()).drop_last() =~= f);
        } else {
            assert(without_key(s, k) == f);
        }
    }
}

/// The front header that waits for completion data is due to be fetched at
/// `now`: it has never been fetched, or it was fetched more than
/// `RETRY_FETCH_COMPLETION_INTERVAL` ago.
pub open spec fn fetch_due(s: Seq<((u64, u64), Option<u128>)>, now: u128) -> bool {
    s.len() > 0 && match s[0].1 {
        None => true,
        Some(last) => last < now && now - last > RETRY_FETCH_COMPLETION_INTERVAL,
    }
}

/// `after` is `before` without its entries below `border`, which all come first.
pub open spec fn entries_pruned<H, E>(
    before: Seq<QueueEntry<H, E>>,
    after: Seq<QueueEntry<H, E>>,
    border: u64,
) -> bool {
    exists|k: int|
        0 <= k <= before.len() && after == before.skip(k) && (forall|j: int|
            0 <= j < k ==> entry_id(#[trigger] before[j]).0 < border) && (forall|j: int|
            k <= j < before.len() ==> entry_id(#[trigger] before[j]).0 >= border)
}

/// The ids whose number is at least the border, in order.
pub open spec fn ids_from(s: Seq<HeaderId>, border: u64) -> Seq<HeaderId>
    decreases s.len(),
{
    if s.len() == 0 {
        s
    } else if s.last().0 >= border {
        ids_from(s.drop_last(), border).push(s.last())
    } else {
        ids_from(s.drop_last(), border)
    }
}

/// The (parent, child) pairs whose parent number is at least the border, in
/// order.
pub open spec fn pairs_from(s: Seq<(HeaderId, HeaderId)>, border: u64) -> Seq<(HeaderId, HeaderId)>
    decreases s.len(),
{
    if s.len() == 0 {
        s
    } else if s.last().0.0 >= border {
        pairs_from(s.drop_last(), border).push(s.last())
    } else {
        pairs_from(s.drop_last(), border)
    }
}

/// What `ids_from` keeps.
proof fn lemma_ids_from(s: Seq<HeaderId>, border: u64)
    ensures
        forall|x: HeaderId| ids_from(s, border).contains(x) <==> (s.contains(x) && x.0 >= border),
        s.no_duplicates() ==> ids_from(s, border).no_duplicates(),
    decreases s.len(),
{
    if s.len() > 0 {
        let p = s.drop_last();
        lemma_ids_from(p, border);
        assert forall|x: HeaderId| s.contains(x) <==> (p.contains(x) || x == s.last()) by {
            assert(s == p.push(s.last()));
            lemma_push_contains(p, s.last(), x);
        }
        if s.last().0 >= border {
            assert forall|x: HeaderId| ids_from(s, border).contains(x) <==> (ids_from(p, border).contains(x) || x
                == s.last()) by {
                lemma_push_contains(ids_from(p, border), s.last(), x);
            }
            if s.no_duplicates() {
                assert(!p.contains(s.last())) by {
                    if p.contains(s.last()) {
                        let j = choose|j: int| 0 <= j < p.len() && p[j] == s.last();
                        assert(s[j] == s[s.len() - 1]);
                    }
                }
                assert(p.no_duplicates()) by {
                    assert forall|i: int, j: int| 0 <= i < p.len() && 0 <= j < p.len() && i != j implies p[i]
                        != p[j] by {
                        assert(s[i] != s[j]);
                    }
                }
                let q = ids_from(p, border);
                assert forall|i: int, j: int|
                    0 <= i < q.push(s.last()).len() && 0 <= j < q.push(s.last()).len() && i != j implies q.push(
                    s.last(),
                )[i] != q.push(s.last())[j] by {
                    if i == q.len() as int {
                        assert(q.contains(q.push(s.last())[j]));
                    } else if j == q.len() as int {
                        assert(q.contains(q.push(s.last())[i]));
                    }
                }
            }
        } else {
            if s.no_duplicates() {
                assert(p.no_duplicates()) by {
                    assert forall|i: int, j: int| 0 <= i < p.len() && 0 <= j < p.len() && i != j implies p[i]
                        != p[j] by {
                        assert(s[i] != s[j]);
                    }
                }
            }
        }
    }
}

/// What `pairs_from` keeps.
proof fn lemma_pairs_from(s: Seq<(HeaderId, HeaderId)>, border: u64)
    ensures
        forall|x: (HeaderId, HeaderId)| pairs_from(s, border).contains(x) ==> s.contains(x),
        children_one_above(s) ==> children_one_above(pairs_from(s, border)),
    decreases s.len(),
{
    if s.len() > 0 {
        let p = s.drop_last();
        lemma_pairs_from(p, border);
        assert forall|x: (HeaderId, HeaderId)| p.contains(x) implies s.contains(x) by {
            let j = choose|j: int| 0 <= j < p.len() && p[j] == x;
            assert(s[j] == x);
        }
        if s.last().0.0 >= border {
            assert forall|x: (HeaderId, HeaderId)| pairs_from(s, border).contains(x) implies s.contains(x) by {
                lemma_push_contains(pairs_from(p, border), s.last(), x);
            }
        }
        if children_one_above(s) {
            assert(children_one_above(p)) by {
                assert forall|k: int| 0 <= k < p.len() implies (#[trigger] p[k]).1.0 == p[k].0.0 + 1 by {
                    assert(s[k] == p[k]);
                }
            }
            let q = pairs_from(s, border);
            assert forall|k: int| 0 <= k < q.len() implies (#[trigger] q[k]).1.0 == q[k].0.0 + 1 by {
                assert(q.contains(q[k]));
                assert(s.contains(q[k]));
                let j = choose|j: int| 0 <= j < s.len() && s[j] == q[k];
                assert(s[j].1.0 == s[j].0.0 + 1);
            }
        }
    }
}

/// The ids whose number is at least the border, in order.
fn retain_ids_from(ids: &Vec<HeaderId>, border: u64) -> (r: Vec<HeaderId>)
    ensures
        r@ == ids_from(ids@, border),
{
    let mut r: Vec<HeaderId> = Vec::new();
    let mut i: usize = 0;
    while i < ids.len()
        invariant
            i <= ids@.len(),
            r@ == ids_from(ids@.take(i as int), border),
        decreases ids@.len() - i,
    {
        assert(ids@.take(i + 1).drop_last() =~= ids@.take(i as int));
        if ids[i].0 >= border {
            r.push(ids[i]);
        }
        i = i + 1;
    }
    assert(ids@.take(i as int) =~= ids@);
    r
}

/// The (parent, child) pairs whose parent number is at least the border, in
/// order.
fn retain_pairs_from(pairs: &Vec<(HeaderId, HeaderId)>, border: u64) -> (r: Vec<(HeaderId, HeaderId)>)
    ensures
        r@ == pairs_from(pairs@, border),
{
    let mut r: Vec<(HeaderId, HeaderId)> = Vec::new();
    let mut i: usize = 0;
    while i < pairs.len()
        invariant
            i <= pairs@.len(),
            r@ == pairs_from(pairs@.take(i as int), border),
        decreases pairs@.len() - i,
    {
        assert(pairs@.take(i + 1).drop_last() =~= pairs@.take(i as int));
        if pairs[i].0.0 >= border {
            r.push(pairs[i]);
        }
        i = i + 1;
    }
    assert(pairs@.take(i as int) =~= pairs@);
    r
}

/// A copy of the bytes.
fn copy_bytes(v: &Vec<u8>) -> (r: Vec<u8>)
    ensures
        r@ == v@,
{
    let mut r: Vec<u8> = Vec::new();
    let mut i: usize = 0;
    while i < v.len()
        invariant
            i <= v@.len(),
            r@ == v@.take(i as int),
        decreases v@.len() - i,
    {
        r.push(v[i]);
        i = i + 1;
        assert(r@ =~= v@.take(i as int));
    }
    assert(v@.take(i as int) =~= v@);
    r
}

/// Header ids of the map keys, in order.
fn ids_of_keys(keys: &Vec<(u64, u64)>) -> (r: Vec<HeaderId>)
    ensures
        r@.len() == keys@.len(),
        forall|k: int| 0 <= k < r@.len() ==> #[trigger] r@[k] == HeaderId(keys@[k].0, keys@[k].1),
{
    let mut r: Vec<HeaderId> = Vec::new();
    let mut i: usize = 0;
    while i < keys.len()
        invariant
            i <= keys@.len(),
            r@.len() == i,
            forall|k: int| 0 <= k < i ==> #[trigger] r@[k] == HeaderId(keys@[k].0, keys@[k].1),
        decreases keys@.len() - i,
    {
        r.push(HeaderId(keys[i].0, keys[i].1));
        i = i + 1;
    }
    r
}

/// Whether the ids contain the given one.
pub fn contains_id(ids: &Vec<HeaderId>, id: &HeaderId) -> (r: bool)
    ensures
        r == ids@.contains(*id),
{
    let mut i: usize = 0;
    while i < ids.len()
        invariant
            i <= ids@.len(),
            forall|j: int| 0 <= j < i ==> ids@[j] != *id,
        decreases ids@.len() - i,
    {
        if ids[i] == *id {
            assert(ids@[i as int] == *id);
            return true;
        }
        i = i + 1;
    }
    false
}

} // verus!
