//! On-demand headers relay: which source headers have to be scanned for a
//! mandatory header, and when such a header becomes the required one.

use vstd::prelude::*;

verus! {

/// The range of source headers to scan for mandatory headers: from the header
/// after the best finalized one known to the target node up to the best
/// finalized one at the source node. An unknown best header at the target node
/// counts as the required one (we would risk submitting unneeded transactions
/// otherwise), and an unknown best header at the source node as the one at the
/// target node. Nothing is scanned once the relay is asked to sync as many
/// headers as the source node has.
pub fn mandatory_headers_scan_range(
    best_finalized_source_header_at_source: Option<u64>,
    best_finalized_source_header_at_target: Option<u64>,
    required_header_number: u64,
) -> (r: Option<(u64, u64)>)
    requires
        !(best_finalized_source_header_at_target == Some(u64::MAX) && required_header_number < match best_finalized_source_header_at_source {
            Some(n) => n,
            None => u64::MAX,
        }),
    ensures
        ({
            let at_target = match best_finalized_source_header_at_target {
                Some(n) => n,
                None => required_header_number,
            };
            let at_source = match best_finalized_source_header_at_source {
                Some(n) => n,
                None => at_target,
            };
            r == if required_header_number >= at_source {
                None
            } else {
                Some(((at_target + 1) as u64, at_source))
            }
        }),
{
    let best_finalized_source_header_at_target = match best_finalized_source_header_at_target {
        Some(n) => n,
        None => required_header_number,
    };
    let best_finalized_source_header_at_source = match best_finalized_source_header_at_source {
        Some(n) => n,
        None => best_finalized_source_header_at_target,
    };
    if required_header_number >= best_finalized_source_header_at_source {
        return None;
    }
    Some((best_finalized_source_header_at_target + 1, best_finalized_source_header_at_source))
}

/// A mandatory header found in the scanned range becomes the required header,
/// unless the required header is already at or above it. Returns whether it
/// has become the required one.
pub fn require_mandatory_header(required_header_number: &mut u64, mandatory_header_number: Option<u64>) -> (r:
    bool)
    ensures
        r == (mandatory_header_number matches Some(n) && *old(required_header_number) < n),
        r ==> *final(required_header_number) == mandatory_header_number->0,
        !r ==> *final(required_header_number) == *old(required_header_number),
{
    match mandatory_header_number {
        Some(mandatory) => {
            if *required_header_number >= mandatory {
                false
            } else {
                *required_header_number = mandatory;
                true
            }
        },
        None => false,
    }
}

/// What the on-demand relay does on a tick.
#[derive(Debug, Clone, Copy, PartialEq, Eq, Structural)]
pub enum OnDemandStep {
    /// Reconnect to the source node: it has failed with a connection error.
    ReconnectSource,
    /// Reconnect to the target node: it has failed with a connection error.
    ReconnectTarget,
    /// Scan the source headers in this inclusive range for a mandatory one.
    Scan(u64, u64),
    /// Nothing to scan.
    Idle,
}

/// The decision of the on-demand relay on a tick, given what the source and
/// the target nodes have answered about the best finalized source header
/// (`Err` with whether the error is a connection error, if they have failed).
/// A connection error of the source node, then one of the target node, asks
/// for a reconnect; otherwise the scan range is the one that
/// `mandatory_headers_scan_range` selects (from answers that failed otherwise
/// counting as unknown), without the headers below
/// `latest_non_mandatory_at_source`, that are known to hold no mandatory header.
pub fn on_demand_step(
    best_finalized_source_header_at_source: Result<u64, bool>,
    best_finalized_source_header_at_target: Result<u64, bool>,
    required_header_number: u64,
    latest_non_mandatory_at_source: u64,
) -> (r: OnDemandStep)
    requires
        !(best_finalized_source_header_at_target == Ok::<u64, bool>(u64::MAX) && required_header_number < match best_finalized_source_header_at_source {
            Ok(n) => n,
            Err(_) => u64::MAX,
        }),
    ensures
        best_finalized_source_header_at_source == Err::<u64, bool>(true) ==> r == OnDemandStep::ReconnectSource,
        best_finalized_source_header_at_source != Err::<u64, bool>(true) && best_finalized_source_header_at_target
            == Err::<u64, bool>(true) ==> r == OnDemandStep::ReconnectTarget,
        best_finalized_source_header_at_source != Err::<u64, bool>(true) && best_finalized_source_header_at_target
            != Err::<u64, bool>(true) ==> {
            let at_target = match best_finalized_source_header_at_target {
                Ok(n) => n,
                Err(_) => required_header_number,
            };
            let at_source = match best_finalized_source_header_at_source {
                Ok(n) => n,
                Err(_) => at_target,
            };
            r == if required_header_number >= at_source {
                OnDemandStep::Idle
            } else {
                OnDemandStep::Scan(
                    if at_target + 1 < latest_non_mandatory_at_source {
                        latest_non_mandatory_at_source
                    } else {
                        (at_target + 1) as u64
                    },
                    at_source,
                )
            }
        },
{
    let at_source = match best_finalized_source_header_at_source {
        Ok(n) => Some(n),
        Err(is_connection_error) => {
            if is_connection_error {
                return OnDemandStep::ReconnectSource;
            }
            None
        },
    };
    let at_target = match best_finalized_source_header_at_target {
        Ok(n) => Some(n),
        Err(is_connection_error) => {
            if is_connection_error {
                return OnDemandStep::ReconnectTarget;
            }
            None
        },
    };
    match mandatory_headers_scan_range(at_source, at_target, required_header_number) {
        Some((begin, end)) => {
            let begin = if begin < latest_non_mandatory_at_source {
                latest_non_mandatory_at_source
            } else {
                begin
            };
            OnDemandStep::Scan(begin, end)
        },
        None => OnDemandStep::Idle,
    }
}

/// What follows a scan of the range that ends at `scan_range_end`, given
/// whether it has made a mandatory header the required one (`Err` with whether
/// the error is a connection error, if the scan has failed). Where no mandatory
/// header was found or needed, the headers up to the end of the range are
/// remembered as holding none. Returns whether the source node has to be
/// reconnected.
pub fn mandatory_scan_finished(
    result: Result<bool, bool>,
    scan_range_end: u64,
    latest_non_mandatory_at_source: &mut u64,
) -> (r: bool)
    ensures
        r == (result == Err::<bool, bool>(true)),
        *final(latest_non_mandatory_at_source) == if result == Ok::<bool, bool>(false) {
            scan_range_end
        } else {
            *old(latest_non_mandatory_at_source)
        },
{
    match result {
        Ok(relayed) => {
            if !relayed {
                *latest_non_mandatory_at_source = scan_range_end;
            }
            false
        },
        Err(is_connection_error) => is_connection_error,
    }
}

} // verus!
