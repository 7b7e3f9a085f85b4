use bridge_relays::on_demand::{
    mandatory_headers_scan_range, mandatory_scan_finished, on_demand_step, require_mandatory_header, OnDemandStep,
};

const AT_SOURCE: Option<u64> = Some(10);
const AT_TARGET: Option<u64> = Some(1);

#[test]
fn mandatory_headers_scan_range_selects_range_if_some_headers_are_missing() {
    assert_eq!(
        mandatory_headers_scan_range(AT_SOURCE, AT_TARGET, 0,),
        Some((AT_TARGET.unwrap() + 1, AT_SOURCE.unwrap())),
    );
}

#[test]
fn mandatory_headers_scan_range_selects_nothing_if_already_queued() {
    assert_eq!(mandatory_headers_scan_range(AT_SOURCE, AT_TARGET, AT_SOURCE.unwrap(),), None,);
}

#[test]
fn mandatory_headers_scan_range_assumes_unknown_numbers() {
    // unknown number at target is the required one
    assert_eq!(mandatory_headers_scan_range(AT_SOURCE, None, 5), Some((6, 10)));
    // unknown number at source is the one at target
    assert_eq!(mandatory_headers_scan_range(None, AT_TARGET, 0), Some((2, 1)));
    assert_eq!(mandatory_headers_scan_range(None, None, 0), None);
}

#[test]
fn mandatory_header_becomes_required() {
    let mut required = 5;
    assert!(!require_mandatory_header(&mut required, None));
    assert!(!require_mandatory_header(&mut required, Some(5)));
    assert_eq!(required, 5);
    assert!(require_mandatory_header(&mut required, Some(8)));
    assert_eq!(required, 8);
}

#[test]
fn connection_errors_ask_for_reconnect() {
    assert_eq!(on_demand_step(Err(true), Ok(1), 0, 0), OnDemandStep::ReconnectSource);
    assert_eq!(on_demand_step(Err(true), Err(true), 0, 0), OnDemandStep::ReconnectSource);
    assert_eq!(on_demand_step(Ok(10), Err(true), 0, 0), OnDemandStep::ReconnectTarget);
}

#[test]
fn scan_skips_headers_known_to_be_non_mandatory() {
    assert_eq!(on_demand_step(Ok(10), Ok(1), 0, 0), OnDemandStep::Scan(2, 10));
    assert_eq!(on_demand_step(Ok(10), Ok(1), 0, 5), OnDemandStep::Scan(5, 10));
    assert_eq!(on_demand_step(Ok(10), Ok(1), 10, 0), OnDemandStep::Idle);
}

#[test]
fn failed_reads_count_as_unknown_numbers() {
    // unknown number at target counts as the required one
    assert_eq!(on_demand_step(Ok(10), Err(false), 3, 0), OnDemandStep::Scan(4, 10));
    // unknown number at source counts as the one at target
    assert_eq!(on_demand_step(Err(false), Ok(4), 3, 0), OnDemandStep::Scan(5, 4));
    assert_eq!(on_demand_step(Err(false), Err(false), 3, 0), OnDemandStep::Idle);
}

#[test]
fn finished_scan_remembers_range_without_mandatory_headers() {
    let mut latest = 3;
    assert!(!mandatory_scan_finished(Ok(true), 10, &mut latest));
    assert_eq!(latest, 3);
    assert!(!mandatory_scan_finished(Ok(false), 10, &mut latest));
    assert_eq!(latest, 10);
    assert!(!mandatory_scan_finished(Err(false), 20, &mut latest));
    assert_eq!(latest, 10);
    assert!(mandatory_scan_finished(Err(true), 20, &mut latest));
    assert_eq!(latest, 10);
}
