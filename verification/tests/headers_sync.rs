use bridge_relays::sync::{sync_params, EncodedSize, HeadersSync, HeadersSyncParams, TargetTransactionMode};
use bridge_relays::sync_types::{HeaderStatus, QueuedHeader};
use bridge_relays::utils::HeaderId;

#[derive(Default, Debug, Clone, PartialEq)]
pub struct TestHeader {
    pub hash: u64,
    pub number: u64,
    pub parent_hash: u64,
}

impl EncodedSize for TestHeader {
    fn spec_encoded_size(&self) -> usize {
        0
    }

    fn encoded_size(&self) -> usize {
        0
    }
}

fn side_hash(number: u64) -> u64 {
    1000 + number
}

fn id(number: u64) -> HeaderId {
    HeaderId(number, number)
}

fn header(number: u64) -> QueuedHeader<TestHeader, u64> {
    QueuedHeader::new(id(number), number - 1, TestHeader { number, hash: number, parent_hash: number - 1 })
}

fn default_sync_params() -> HeadersSyncParams {
    HeadersSyncParams {
        max_future_headers_to_download: 128,
        max_headers_in_submitted_status: 128,
        max_headers_in_single_submit: 32,
        max_headers_size_in_single_submit: 131_072,
        prune_depth: 4096,
        target_tx_mode: TargetTransactionMode::Signed,
    }
}

fn new_sync(params: HeadersSyncParams) -> HeadersSync<TestHeader, u64> {
    HeadersSync::new(params)
}

#[test]
fn select_new_header_to_download_works() {
    let mut eth_sync = new_sync(default_sync_params());

    // both best && target headers are unknown
    assert_eq!(eth_sync.select_new_header_to_download(), None);

    // best header is known, target header is unknown
    eth_sync.target_best_header_response(HeaderId(0, Default::default()));
    assert_eq!(eth_sync.select_new_header_to_download(), None);

    // target header is known, best header is unknown
    eth_sync.restart();
    eth_sync.source_best_header_number_response(100);
    assert_eq!(eth_sync.select_new_header_to_download(), None);

    // when our best block has the same number as the target
    eth_sync.target_best_header_response(HeaderId(100, Default::default()));
    assert_eq!(eth_sync.select_new_header_to_download(), None);

    // when we actually need a new header
    eth_sync.source_best_header_number_response(101);
    assert_eq!(eth_sync.select_new_header_to_download(), Some(101));

    // when we have to reorganize to longer fork
    eth_sync.source_best_header_number_response(100);
    eth_sync.target_best_header_response(HeaderId(200, Default::default()));
    assert_eq!(eth_sync.select_new_header_to_download(), Some(100));

    // when there are too many headers scheduled for submitting
    for i in 1..1000 {
        eth_sync.headers_mut().header_response(header(i));
    }
    assert_eq!(eth_sync.select_new_header_to_download(), None);
}

#[test]
fn select_new_header_to_download_works_with_empty_queue() {
    let mut eth_sync = new_sync(default_sync_params());
    eth_sync.source_best_header_number_response(100);

    // when queue is not empty => everything goes as usually
    eth_sync.target_best_header_response(header(10).id());
    eth_sync.headers_mut().header_response(header(11));
    eth_sync.headers_mut().maybe_extra_response(&header(11).id(), false);
    assert_eq!(eth_sync.select_new_header_to_download(), Some(12));

    // but then queue is drained
    eth_sync.headers_mut().target_best_header_response(&header(11).id());

    // even though it's empty, we know that header#11 is synced
    assert_eq!(eth_sync.headers().best_queued_number(), 0);
    assert_eq!(eth_sync.headers().best_synced_number(), 11);
    assert_eq!(eth_sync.select_new_header_to_download(), Some(12));
}

#[test]
fn sync_without_reorgs_works() {
    let mut params = default_sync_params();
    params.max_headers_in_submitted_status = 1;
    let mut eth_sync = new_sync(params);

    // ethereum reports best header #102
    eth_sync.source_best_header_number_response(102);

    // substrate reports that it is at block #100
    eth_sync.target_best_header_response(id(100));

    // block #101 is downloaded first
    assert_eq!(eth_sync.select_new_header_to_download(), Some(101));
    eth_sync.headers_mut().header_response(header(101));

    // now header #101 is ready to be submitted
    assert_eq!(eth_sync.headers().header(HeaderStatus::MaybeExtra), Some(&header(101)));
    eth_sync.headers_mut().maybe_extra_response(&id(101), false);
    assert_eq!(eth_sync.headers().header(HeaderStatus::Ready), Some(&header(101)));
    assert_eq!(eth_sync.select_headers_to_submit(false), Some(vec![&header(101)]));

    // and header #102 is ready to be downloaded
    assert_eq!(eth_sync.select_new_header_to_download(), Some(102));
    eth_sync.headers_mut().header_response(header(102));

    // receive submission confirmation
    eth_sync.headers_mut().headers_submitted(vec![id(101)]);

    // we have nothing to submit because previous header hasn't been confirmed yet
    // (and we allow max 1 submit transaction in the wild)
    assert_eq!(eth_sync.headers().header(HeaderStatus::MaybeExtra), Some(&header(102)));
    eth_sync.headers_mut().maybe_extra_response(&id(102), false);
    assert_eq!(eth_sync.headers().header(HeaderStatus::Ready), Some(&header(102)));
    assert_eq!(eth_sync.select_headers_to_submit(false), None);

    // substrate reports that it has imported block #101
    eth_sync.target_best_header_response(id(101));

    // and we are ready to submit #102
    assert_eq!(eth_sync.select_headers_to_submit(false), Some(vec![&header(102)]));
    eth_sync.headers_mut().headers_submitted(vec![id(102)]);

    // substrate reports that it has imported block #102
    eth_sync.target_best_header_response(id(102));

    // and we have nothing to download
    assert_eq!(eth_sync.select_new_header_to_download(), None);
}

#[test]
fn sync_with_orphan_headers_work() {
    let mut eth_sync = new_sync(default_sync_params());

    // ethereum reports best header #102
    eth_sync.source_best_header_number_response(102);

    // substrate reports that it is at block #100, but it isn't part of best chain
    eth_sync.target_best_header_response(HeaderId(100, side_hash(100)));

    // block #101 is downloaded first
    assert_eq!(eth_sync.select_new_header_to_download(), Some(101));
    eth_sync.headers_mut().header_response(header(101));

    // we can't submit header #101, because its parent status is unknown
    assert_eq!(eth_sync.select_headers_to_submit(false), None);

    // instead we are trying to determine status of its parent (#100)
    assert_eq!(eth_sync.headers().header(HeaderStatus::MaybeOrphan), Some(&header(101)));

    // and the status is still unknown
    eth_sync.headers_mut().maybe_orphan_response(&id(100), false);

    // so we consider #101 orphaned now && will download its parent - #100
    assert_eq!(eth_sync.headers().header(HeaderStatus::Orphan), Some(&header(101)));
    eth_sync.headers_mut().header_response(header(100));

    // #101 is now Orphan and #100 is MaybeOrphan => we do not want to retrieve
    // header #100 again
    assert_eq!(eth_sync.headers().header(HeaderStatus::Orphan), Some(&header(101)));
    assert_eq!(eth_sync.select_orphan_header_to_download(), None);

    // we can't submit header #100, because its parent status is unknown
    assert_eq!(eth_sync.select_headers_to_submit(false), None);

    // instead we are trying to determine status of its parent (#99)
    assert_eq!(eth_sync.headers().header(HeaderStatus::MaybeOrphan), Some(&header(100)));

    // and the status is known, so we move previously orphaned #100 and #101 to ready queue
    eth_sync.headers_mut().maybe_orphan_response(&id(99), true);

    // and we are ready to submit #100
    assert_eq!(eth_sync.headers().header(HeaderStatus::MaybeExtra), Some(&header(100)));
    eth_sync.headers_mut().maybe_extra_response(&id(100), false);
    assert_eq!(eth_sync.select_headers_to_submit(false), Some(vec![&header(100)]));
    eth_sync.headers_mut().headers_submitted(vec![id(100)]);

    // and we are ready to submit #101
    assert_eq!(eth_sync.headers().header(HeaderStatus::MaybeExtra), Some(&header(101)));
    eth_sync.headers_mut().maybe_extra_response(&id(101), false);
    assert_eq!(eth_sync.select_headers_to_submit(false), Some(vec![&header(101)]));
    eth_sync.headers_mut().headers_submitted(vec![id(101)]);
}

#[test]
fn pruning_happens_on_target_best_header_response() {
    let mut params = default_sync_params();
    params.prune_depth = 50;
    let mut eth_sync = new_sync(params);
    eth_sync.target_best_header_response(id(100));
    assert_eq!(eth_sync.headers().prune_border(), 50);
}

#[test]
fn only_submitting_headers_in_backup_mode_when_stalled() {
    let mut params = default_sync_params();
    params.target_tx_mode = TargetTransactionMode::Backup;
    let mut eth_sync = new_sync(params);

    // ethereum reports best header #102
    eth_sync.source_best_header_number_response(102);

    // substrate reports that it is at block #100
    eth_sync.target_best_header_response(id(100));

    // block #101 is downloaded first
    eth_sync.headers_mut().header_response(header(101));
    eth_sync.headers_mut().maybe_extra_response(&id(101), false);

    // ensure that headers are not submitted when sync is not stalled
    assert_eq!(eth_sync.select_headers_to_submit(false), None);

    // ensure that headers are not submitted when sync is stalled
    assert_eq!(eth_sync.select_headers_to_submit(true), Some(vec![&header(101)]));
}

#[test]
fn does_not_select_new_headers_to_submit_when_submit_is_paused() {
    let mut params = default_sync_params();
    params.max_headers_in_submitted_status = 1;
    let mut eth_sync = new_sync(params);

    // ethereum reports best header #102 and substrate is at #100
    eth_sync.source_best_header_number_response(102);
    eth_sync.target_best_header_response(id(100));

    // let's prepare #101 and #102 for submitting
    eth_sync.headers_mut().header_response(header(101));
    eth_sync.headers_mut().maybe_extra_response(&id(101), false);
    eth_sync.headers_mut().header_response(header(102));
    eth_sync.headers_mut().maybe_extra_response(&id(102), false);

    // when submit is not paused, we're ready to submit #101
    assert_eq!(eth_sync.select_headers_to_submit(false), Some(vec![&header(101)]));

    // when submit is paused, we're not ready to submit anything
    eth_sync.pause_submit();
    assert_eq!(eth_sync.select_headers_to_submit(false), None);

    // if best header on substrate node isn't updated, we still not submitting anything
    eth_sync.target_best_header_response(id(100));
    assert_eq!(eth_sync.select_headers_to_submit(false), None);

    // but after it is actually updated, we are ready to submit
    eth_sync.target_best_header_response(id(101));
    assert_eq!(eth_sync.select_headers_to_submit(false), Some(vec![&header(102)]));
}

#[test]
fn almost_synced_when_target_is_less_than_four_headers_behind() {
    let mut eth_sync = new_sync(default_sync_params());
    assert!(eth_sync.is_almost_synced());
    eth_sync.source_best_header_number_response(104);
    assert!(!eth_sync.is_almost_synced());
    eth_sync.target_best_header_response(id(100));
    assert!(!eth_sync.is_almost_synced());
    eth_sync.target_best_header_response(id(101));
    assert!(eth_sync.is_almost_synced());
    assert_eq!(eth_sync.status(), (Some(id(101)), Some(104)));
}

#[test]
fn submit_request_is_limited_by_single_submit_limit() {
    let mut params = default_sync_params();
    params.max_headers_in_single_submit = 2;
    let mut eth_sync = new_sync(params);
    eth_sync.target_best_header_response(id(100));
    for number in 101..=104 {
        eth_sync.headers_mut().header_response(header(number));
        eth_sync.headers_mut().maybe_extra_response(&id(number), false);
    }
    assert_eq!(eth_sync.select_headers_to_submit(false), Some(vec![&header(101), &header(102)]));
}

#[test]
fn substrate_sync_params_are_sane() {
    let params = sync_params();
    assert_eq!(params.max_future_headers_to_download, 32);
    assert_eq!(params.max_headers_in_submitted_status, 8);
    assert_eq!(params.max_headers_in_single_submit, 1);
    assert_eq!(params.max_headers_size_in_single_submit, 1024 * 1024);
    assert_eq!(params.prune_depth, 256);
    assert_eq!(params.target_tx_mode, TargetTransactionMode::Signed);
}
