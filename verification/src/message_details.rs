//! Details of the messages that a source node reports, checked against the
//! range of nonces that has been asked for.

use vstd::prelude::*;

use std::collections::BTreeMap;
use std::ops::RangeInclusive;

use crate::race::{range_end, range_is_empty, range_start, MessageNonce, Weight};

verus! {

broadcast use {vstd::laws_cmp::group_laws_cmp, vstd::std_specs::btree::group_btree_axioms};

/// Who pays for the dispatch of a message.
#[derive(Debug, Clone, Copy, PartialEq, Eq, Structural)]
pub enum DispatchFeePayment {
    /// The dispatch fee is paid at the source chain.
    AtSourceChain,
    /// The dispatch fee is paid at the target chain.
    AtTargetChain,
}

/// Message details, as the source node reports them.
#[derive(Debug, Clone, Copy, PartialEq, Eq, Structural)]
pub struct SourceMessageDetails {
    /// Nonce assigned to the message.
    pub nonce: MessageNonce,
    /// Message dispatch weight, declared by the submitter.
    pub dispatch_weight: Weight,
    /// Size of the encoded message.
    pub size: u32,
    /// Delivery+dispatch fee paid by the message submitter at the source chain.
    pub delivery_and_dispatch_fee: u128,
    /// Where the fee for dispatching message is paid?
    pub dispatch_fee_payment: DispatchFeePayment,
}

/// Message details, as the relay keeps them.
#[derive(Debug, Clone, Copy, PartialEq, Eq, Structural)]
pub struct MessageDetails {
    /// Message dispatch weight.
    pub dispatch_weight: Weight,
    /// Message size (number of bytes in encoded payload).
    pub size: usize,
    /// The relayer reward paid in the source chain tokens.
    pub reward: u128,
    /// Where the fee for dispatching message is paid?
    pub dispatch_fee_payment: DispatchFeePayment,
}

/// A nonce of the asked range is missing from the details that the source
/// node has reported.
#[derive(Debug, Clone, Copy, PartialEq, Eq, Structural)]
pub struct MissingNonce(pub MessageNonce);

/// The relay's details of a reported message.
pub open spec fn relay_details(details: SourceMessageDetails) -> (MessageNonce, MessageDetails) {
    (
        details.nonce,
        MessageDetails {
            dispatch_weight: details.dispatch_weight,
            size: details.size as usize,
            reward: details.delivery_and_dispatch_fee,
            dispatch_fee_payment: details.dispatch_fee_payment,
        },
    )
}

/// The nonce that comes after the given one (wrapping at the largest nonce).
pub open spec fn next_nonce(nonce: MessageNonce) -> MessageNonce {
    if nonce < u64::MAX {
        (nonce + 1) as u64
    } else {
        0
    }
}

/// The reported details follow each other without a gap from `i` on.
pub open spec fn without_gap(details: Seq<SourceMessageDetails>, i: int) -> bool {
    forall|j: int| i <= j < details.len() ==> (#[trigger] details[j]).nonce == next_nonce(details[j - 1].nonce)
}

/// The first missing nonce of the reported details, after the one at `i`,
/// if there is one.
pub open spec fn first_gap(details: Seq<SourceMessageDetails>, i: int) -> Option<MessageNonce>
    decreases details.len() - i,
{
    if i + 1 >= details.len() || i < 0 {
        None
    } else if details[i + 1].nonce != next_nonce(details[i].nonce) {
        Some(next_nonce(details[i].nonce))
    } else {
        first_gap(details, i + 1)
    }
}

proof fn lemma_first_gap_none(details: Seq<SourceMessageDetails>, i: int)
    requires
        0 <= i,
        first_gap(details, i) is None,
    ensures
        without_gap(details, i + 1),
    decreases details.len() - i,
{
    if i + 1 < details.len() {
        lemma_first_gap_none(details, i + 1);
    }
}

/// The details of the reported messages by nonce, each message in turn (a later
/// one taking the place of an earlier one of the same nonce).
pub open spec fn details_map(details: Seq<SourceMessageDetails>) -> Map<MessageNonce, MessageDetails>
    decreases details.len(),
{
    if details.len() == 0 {
        Map::empty()
    } else {
        let (nonce, relayed) = relay_details(details.last());
        details_map(details.drop_last()).insert(nonce, relayed)
    }
}

/// Check the details of the messages that the source node has reported for
/// the given nonces, and keep them by nonce.
///
/// Nothing is checked for an empty range. Otherwise the last reported nonce
/// must be the end of the range, and the reported nonces must follow each
/// other without a gap; the first of them may come after the start of the
/// range (messages may have been pruned from the source node already). The
/// first missing nonce is reported otherwise.
pub fn make_message_details_map(
    weights: Vec<SourceMessageDetails>,
    nonces: RangeInclusive<MessageNonce>,
) -> (r: Result<BTreeMap<MessageNonce, MessageDetails>, MissingNonce>)
    ensures
        (nonces@.exhausted || nonces@.start > nonces@.end) ==> (r matches Ok(map) && map@ == Map::<
            MessageNonce,
            MessageDetails,
        >::empty()),
        !(nonces@.exhausted || nonces@.start > nonces@.end) ==> {
            if weights@.len() == 0 || weights@.last().nonce != nonces@.end {
                r == Err::<BTreeMap<MessageNonce, MessageDetails>, MissingNonce>(MissingNonce(nonces@.end))
            } else if first_gap(weights@, 0) is Some {
                r == Err::<BTreeMap<MessageNonce, MessageDetails>, MissingNonce>(
                    MissingNonce(first_gap(weights@, 0)->0),
                )
            } else {
                &&& r matches Ok(map)
                &&& map@ == details_map(weights@)
                &&& without_gap(weights@, 1)
            }
        },
{
    let mut weights_map: BTreeMap<MessageNonce, MessageDetails> = BTreeMap::new();
    if range_is_empty(&nonces) {
        return Ok(weights_map);
    }
    let end = range_end(&nonces);
    let len = weights.len();
    if len == 0 || weights[len - 1].nonce != end {
        return Err(MissingNonce(end));
    }
    let mut expected_nonce = range_start(&nonces);
    let mut is_at_head = true;
    let mut i: usize = 0;
    while i < len
        invariant
            len == weights@.len(),
            len > 0,
            !(nonces@.exhausted || nonces@.start > nonces@.end),
            weights@.last().nonce == nonces@.end,
            i <= len,
            is_at_head <==> i == 0,
            i > 0 ==> expected_nonce == next_nonce(weights@[i - 1].nonce),
            i > 0 ==> first_gap(weights@, 0) == first_gap(weights@, i - 1),
            weights_map@ == details_map(weights@.take(i as int)),
        decreases len - i,
    {
        let details = weights[i];
        if details.nonce != expected_nonce && !is_at_head {
            proof {
                assert(first_gap(weights@, i - 1) == Some(expected_nonce));
            }
            return Err(MissingNonce(expected_nonce));
        }
        weights_map.insert(
            details.nonce,
            MessageDetails {
                dispatch_weight: details.dispatch_weight,
                size: details.size as usize,
                reward: details.delivery_and_dispatch_fee,
                dispatch_fee_payment: details.dispatch_fee_payment,
            },
        );
        proof {
            if i > 0 {
                assert(first_gap(weights@, i - 1) == first_gap(weights@, i as int));
            }
            assert(weights@.take(i + 1).drop_last() =~= weights@.take(i as int));
            assert(weights_map@ == details_map(weights@.take(i + 1)));
        }
        expected_nonce = details.nonce.wrapping_add(1);
        is_at_head = false;
        i = i + 1;
    }
    proof {
        assert(weights@.take(len as int) =~= weights@);
        assert(first_gap(weights@, len - 1) is None);
        lemma_first_gap_none(weights@, 0);
    }
    Ok(weights_map)
}

} // verus!
