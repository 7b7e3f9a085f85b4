use bridge_relays::send_message::{
    compute_maximal_message_arguments_size, prepare_call_dispatch_weight, remark_payload, ExplicitOrMaximal,
};

#[test]
fn remark_payload_of_explicit_size_is_zeros() {
    assert_eq!(remark_payload(Some(ExplicitOrMaximal::Explicit(3)), 100, 77), vec![0u8, 0, 0]);
    assert_eq!(remark_payload(Some(ExplicitOrMaximal::Explicit(0)), 100, 77), Vec::<u8>::new());
}

#[test]
fn remark_payload_of_maximal_size_is_zeros() {
    assert_eq!(remark_payload(Some(ExplicitOrMaximal::Maximal), 5, 77), vec![0u8; 5]);
}

#[test]
fn remark_payload_without_size_holds_time() {
    assert_eq!(remark_payload(None, 5, 1234), b"Unix time: 1234".to_vec());
    assert_eq!(remark_payload(None, 5, 0), b"Unix time: 0".to_vec());
    assert_eq!(remark_payload(None, 5, 1_600_000_000), b"Unix time: 1600000000".to_vec());
}

#[test]
fn user_specified_dispatch_weight_wins() {
    assert_eq!(prepare_call_dispatch_weight(Some(ExplicitOrMaximal::Explicit(5)), ExplicitOrMaximal::Explicit(7), 100), 5);
    assert_eq!(prepare_call_dispatch_weight(Some(ExplicitOrMaximal::Maximal), ExplicitOrMaximal::Explicit(7), 100), 100);
}

#[test]
fn pre_dispatch_weight_is_used_without_user_weight() {
    assert_eq!(prepare_call_dispatch_weight(None, ExplicitOrMaximal::Explicit(7), 100), 7);
    assert_eq!(prepare_call_dispatch_weight(None, ExplicitOrMaximal::Maximal, 100), 100);
}

#[test]
fn maximal_message_arguments_size_is_limited_by_both_chains() {
    // the target chain's call limit is the smaller one
    assert_eq!(compute_maximal_message_arguments_size(10_000, 2_000), 1_994);
    // the source chain's transaction, less its service bytes, is the smaller one
    assert_eq!(compute_maximal_message_arguments_size(2_024, 5_000), 994);
    assert_eq!(compute_maximal_message_arguments_size(1_030, 6), 0);
}
