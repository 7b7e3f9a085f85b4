//! Timing and size decisions of block proposal and import on the relay chain.

use vstd::prelude::*;

verus! {

/// Limit of the total encoded size of the pool transactions in a proposed block.
pub const MAX_TRANSACTIONS_SIZE: usize = 4194304;

/// How long (in seconds) the import of a block has to wait, given the current
/// time and the timestamp that the block sets (both in seconds): until the
/// block's timestamp is not later than the current time. A block that sets no
/// timestamp is imported at once.
pub fn import_delay(now: u64, timestamp_in_block: Option<u64>) -> (r: Option<u64>)
    ensures
        r == match timestamp_in_block {
            Some(t) if now < t => Some((t - now) as u64),
            _ => None::<u64>,
        },
{
    match timestamp_in_block {
        Some(timestamp) => {
            if now < timestamp {
                Some(timestamp - now)
            } else {
                None
            }
        },
        None => None,
    }
}

/// Whether a pool transaction of `encoded_size` bytes still goes into a block
/// that holds `pending_size` bytes of them: the total must stay below
/// `MAX_TRANSACTIONS_SIZE`. The proposer stops at the first one that does not.
pub fn transaction_fits(pending_size: usize, encoded_size: usize) -> (r: bool)
    ensures
        r == (pending_size + encoded_size < MAX_TRANSACTIONS_SIZE),
{
    if encoded_size >= MAX_TRANSACTIONS_SIZE {
        return false;
    }
    if pending_size >= MAX_TRANSACTIONS_SIZE - encoded_size {
        return false;
    }
    true
}

} // verus!
