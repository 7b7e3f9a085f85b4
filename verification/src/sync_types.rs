//! Types that are used by headers synchronization components.

use vstd::prelude::*;

use crate::utils::HeaderId;

verus! {

/// Header synchronization status.
#[derive(Debug, Clone, Copy, PartialEq, Eq, Structural)]
pub enum HeaderStatus {
    /// Header is unknown.
    Unknown,
    /// Header is in MaybeOrphan queue.
    MaybeOrphan,
    /// Header is in Orphan queue.
    Orphan,
    /// Header is in MaybeExtra queue.
    MaybeExtra,
    /// Header is in Extra queue.
    Extra,
    /// Header is in Ready queue.
    Ready,
    /// Header is in Incomplete queue.
    Incomplete,
    /// Header has been recently submitted to the target node.
    Submitted,
    /// Header is known to the target node.
    Synced,
}

/// True for the statuses of headers that wait in one of the queues.
pub open spec fn is_queue_status(status: HeaderStatus) -> bool {
    status != HeaderStatus::Unknown && status != HeaderStatus::Synced
}

/// Header how it's stored in the synchronization queue: the source header
/// itself, its id, the id of its parent and the extra data that has been
/// attached to it.
#[derive(Debug, PartialEq)]
pub struct QueuedHeader<H, E> {
    id: HeaderId,
    parent_id: HeaderId,
    header: H,
    extra: Option<E>,
}

impl<H, E> QueuedHeader<H, E> {
    /// The parent of a queued header is one block below it.
    #[verifier::type_invariant]
    spec fn parent_is_one_below(self) -> bool {
        self.parent_id.0 + 1 == self.id.0
    }

    /// Id of the header.
    pub closed spec fn spec_id(self) -> HeaderId {
        self.id
    }

    /// Id of the parent header.
    pub closed spec fn spec_parent_id(self) -> HeaderId {
        self.parent_id
    }

    /// The source header.
    pub closed spec fn spec_header(self) -> H {
        self.header
    }

    /// Extra data attached to the header.
    pub closed spec fn spec_extra(self) -> Option<E> {
        self.extra
    }

    /// Creates new queued header. The parent of the header `id` is the header
    /// with number `id.0 - 1` and hash `parent_hash`; there is no such header
    /// for the genesis header, so its number must be positive.
    pub fn new(id: HeaderId, parent_hash: u64, header: H) -> (r: Self)
        requires
            id.0 > 0,
        ensures
            r.spec_id() == id,
            r.spec_parent_id() == HeaderId((id.0 - 1) as u64, parent_hash),
            r.spec_header() == header,
            r.spec_extra() == None::<E>,
    {
        QueuedHeader { id, parent_id: HeaderId(id.0 - 1, parent_hash), header, extra: None }
    }

    /// Set associated extra data.
    pub fn set_extra(self, extra: E) -> (r: Self)
        ensures
            r.spec_parent_id().0 + 1 == r.spec_id().0,
            r.spec_id() == self.spec_id(),
            r.spec_parent_id() == self.spec_parent_id(),
            r.spec_header() == self.spec_header(),
            r.spec_extra() == Some(extra),
    {
        proof {
            use_type_invariant(&self);
        }
        QueuedHeader { id: self.id, parent_id: self.parent_id, header: self.header, extra: Some(extra) }
    }

    /// Returns ID of header.
    pub fn id(&self) -> (r: HeaderId)
        ensures
            r == self.spec_id(),
    {
        self.id
    }

    /// Returns ID of parent header.
    pub fn parent_id(&self) -> (r: HeaderId)
        ensures
            r == self.spec_parent_id(),
            r.0 + 1 == self.spec_id().0,
    {
        proof {
            use_type_invariant(self);
        }
        self.parent_id
    }

    /// Returns reference to header.
    pub fn header(&self) -> (r: &H)
        ensures
            *r == self.spec_header(),
    {
        &self.header
    }

    /// Returns reference to associated extra data.
    pub fn extra(&self) -> (r: &Option<E>)
        ensures
            *r == self.spec_extra(),
    {
        &self.extra
    }
}

impl<H: Clone, E: Clone> Clone for QueuedHeader<H, E> {
    fn clone(&self) -> (r: Self)
        ensures
            r.spec_id() == self.spec_id(),
            r.spec_parent_id() == self.spec_parent_id(),
    {
        proof {
            use_type_invariant(self);
        }
        QueuedHeader {
            id: self.id,
            parent_id: self.parent_id,
            header: self.header.clone(),
            extra: self.extra.clone(),
        }
    }
}

/// Headers submission result.
#[derive(Debug)]
pub struct SubmittedHeaders<Id, Error> {
    /// IDs of headers that have been submitted to target node.
    pub submitted: Vec<Id>,
    /// IDs of incomplete headers. These headers were submitted (so this id is also in `submitted` vec),
    /// but all descendants are not.
    pub incomplete: Vec<Id>,
    /// IDs of ignored headers that we have decided not to submit (they're either rejected by
    /// target node immediately, or they're descendants of incomplete headers).
    pub rejected: Vec<Id>,
    /// Fatal target node error, if it has occured during submission.
    pub fatal_error: Option<Error>,
}

impl<Id, Error> SubmittedHeaders<Id, Error> {
    /// Empty submission result.
    pub fn empty() -> (r: Self)
        ensures
            r.submitted@.len() == 0,
            r.incomplete@.len() == 0,
            r.rejected@.len() == 0,
            r.fatal_error is None,
    {
        SubmittedHeaders {
            submitted: Vec::new(),
            incomplete: Vec::new(),
            rejected: Vec::new(),
            fatal_error: None,
        }
    }
}

} // verus!
