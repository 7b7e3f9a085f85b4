use bridge_relays::headers::QueuedHeaders;
use bridge_relays::sync_types::{HeaderStatus, QueuedHeader};
use bridge_relays::utils::HeaderId;

#[derive(Default, Debug, Clone, PartialEq)]
pub struct TestHeader {
    pub hash: u64,
    pub number: u64,
    pub parent_hash: u64,
}

type Queue = QueuedHeaders<TestHeader, u64>;

/// Twenty seconds, in nanoseconds.
const RETRY_FETCH_COMPLETION_INTERVAL: u128 = 20_000_000_000;

fn hash(number: u64) -> u64 {
    number
}

fn id(number: u64) -> HeaderId {
    HeaderId(number, hash(number))
}

fn header(number: u64) -> QueuedHeader<TestHeader, u64> {
    QueuedHeader::new(
        id(number),
        hash(number - 1),
        TestHeader { number, hash: hash(number), parent_hash: hash(number - 1) },
    )
}

/// Header whose parent is not the header `number - 1` of the main chain.
fn header_on_fork(number: u64) -> QueuedHeader<TestHeader, u64> {
    QueuedHeader::new(id(number), 1000 + number - 1, TestHeader { number, hash: hash(number), parent_hash: 1000 + number - 1 })
}

fn fork_parent(number: u64) -> HeaderId {
    HeaderId(number - 1, 1000 + number - 1)
}

fn queue() -> Queue {
    QueuedHeaders::new()
}

fn maybe_orphan(queue: &mut Queue, number: u64) {
    queue.header_response(header(number));
}

fn orphan(queue: &mut Queue, number: u64) {
    queue.header_response(header(number));
    queue.maybe_orphan_response(&id(number - 1), false);
}

fn maybe_extra(queue: &mut Queue, number: u64) {
    queue.header_response(header(number));
    queue.maybe_orphan_response(&id(number - 1), true);
}

fn extra(queue: &mut Queue, number: u64) {
    maybe_extra(queue, number);
    queue.maybe_extra_response(&id(number), true);
}

fn ready(queue: &mut Queue, number: u64) {
    maybe_extra(queue, number);
    queue.maybe_extra_response(&id(number), false);
}

fn submitted(queue: &mut Queue, number: u64) {
    ready(queue, number);
    queue.headers_submitted(vec![id(number)]);
}

/// Header whose parent waits for completion data.
fn incomplete(queue: &mut Queue, number: u64) {
    queue.add_incomplete_headers(true, vec![id(number - 1)]);
    maybe_extra(queue, number);
    queue.maybe_extra_response(&id(number), false);
}

#[test]
fn total_headers_works() {
    // total headers just sums up number of headers in every queue
    let mut queue = queue();
    maybe_orphan(&mut queue, 10);
    maybe_orphan(&mut queue, 20);
    maybe_orphan(&mut queue, 30);
    orphan(&mut queue, 40);
    maybe_extra(&mut queue, 50);
    ready(&mut queue, 60);
    incomplete(&mut queue, 70);
    assert_eq!(queue.headers_in_status(HeaderStatus::MaybeOrphan), 3);
    assert_eq!(queue.headers_in_status(HeaderStatus::Orphan), 1);
    assert_eq!(queue.headers_in_status(HeaderStatus::MaybeExtra), 1);
    assert_eq!(queue.headers_in_status(HeaderStatus::Ready), 1);
    assert_eq!(queue.headers_in_status(HeaderStatus::Incomplete), 1);
    assert_eq!(queue.total_headers(), 7);
}

#[test]
fn best_queued_number_works() {
    // initially there are headers in MaybeOrphan queue only
    let mut queue = queue();
    maybe_orphan(&mut queue, 1);
    maybe_orphan(&mut queue, 2);
    maybe_orphan(&mut queue, 3);
    assert_eq!(queue.best_queued_number(), 3);
    // and then there's better header in Orphan
    orphan(&mut queue, 10);
    assert_eq!(queue.best_queued_number(), 10);
    // and then there's better header in MaybeExtra
    maybe_extra(&mut queue, 20);
    assert_eq!(queue.best_queued_number(), 20);
    // and then there's better header in Ready
    ready(&mut queue, 30);
    assert_eq!(queue.best_queued_number(), 30);
    // and then there's better header in MaybeOrphan again
    maybe_orphan(&mut queue, 40);
    assert_eq!(queue.best_queued_number(), 40);
    // and then there's some header in Incomplete
    incomplete(&mut queue, 50);
    assert_eq!(queue.best_queued_number(), 50);
}

#[test]
fn status_works() {
    // all headers are unknown initially
    let mut queue = queue();
    assert_eq!(queue.status(&id(10)), HeaderStatus::Unknown);
    // and status is the status of the queued header
    ready(&mut queue, 10);
    assert_eq!(queue.status(&id(10)), HeaderStatus::Ready);
}

#[test]
fn header_works() {
    // initially we have oldest header #100
    let mut queue = queue();
    maybe_orphan(&mut queue, 100);
    assert_eq!(queue.header(HeaderStatus::MaybeOrphan).unwrap().header().hash, hash(100));
    // inserting #105 changes nothing
    maybe_orphan(&mut queue, 105);
    assert_eq!(queue.header(HeaderStatus::MaybeOrphan).unwrap().header().hash, hash(100));
    // inserting #95 makes it oldest
    maybe_orphan(&mut queue, 95);
    assert_eq!(queue.header(HeaderStatus::MaybeOrphan).unwrap().header().hash, hash(95));
}

#[test]
fn header_response_works() {
    // when parent is Synced, we insert to MaybeExtra
    let mut queue = queue();
    queue.target_best_header_response(&id(100));
    queue.header_response(header(101));
    assert_eq!(queue.status(&id(101)), HeaderStatus::MaybeExtra);

    // when parent is Ready, we insert to MaybeExtra
    let mut queue = self::queue();
    ready(&mut queue, 100);
    queue.header_response(header(101));
    assert_eq!(queue.status(&id(101)), HeaderStatus::MaybeExtra);

    // when parent is Receipts, we insert to MaybeExtra
    let mut queue = self::queue();
    extra(&mut queue, 100);
    queue.header_response(header(101));
    assert_eq!(queue.status(&id(101)), HeaderStatus::MaybeExtra);

    // when parent is MaybeExtra, we insert to MaybeExtra
    let mut queue = self::queue();
    maybe_extra(&mut queue, 100);
    queue.header_response(header(101));
    assert_eq!(queue.status(&id(101)), HeaderStatus::MaybeExtra);

    // when parent is Orphan, we insert to Orphan
    let mut queue = self::queue();
    orphan(&mut queue, 100);
    queue.header_response(header(101));
    assert_eq!(queue.status(&id(101)), HeaderStatus::Orphan);

    // when parent is MaybeOrphan, we insert to MaybeOrphan
    let mut queue = self::queue();
    maybe_orphan(&mut queue, 100);
    queue.header_response(header(101));
    assert_eq!(queue.status(&id(101)), HeaderStatus::MaybeOrphan);

    // when parent is unknown, we insert to MaybeOrphan
    let mut queue = self::queue();
    queue.header_response(header(101));
    assert_eq!(queue.status(&id(101)), HeaderStatus::MaybeOrphan);
}

#[test]
fn ancestors_are_synced_on_substrate_best_header_response() {
    // let's say someone else has submitted transaction to bridge that changes
    // its best block to #100. At this time we have:
    // #100 in Orphan
    // #99 in Orphan
    // #98 in MaybeExtra
    // #97 in Receipts
    // #96 in Ready
    let mut queue = queue();
    queue.header_response(header(99));
    queue.header_response(header(100));
    queue.maybe_orphan_response(&id(98), false);
    ready(&mut queue, 96);
    queue.header_response(header(97));
    queue.maybe_extra_response(&id(97), true);
    queue.header_response(header(98));
    assert_eq!(queue.status(&id(100)), HeaderStatus::Orphan);
    assert_eq!(queue.status(&id(99)), HeaderStatus::Orphan);
    assert_eq!(queue.status(&id(98)), HeaderStatus::MaybeExtra);
    assert_eq!(queue.status(&id(97)), HeaderStatus::Extra);
    assert_eq!(queue.status(&id(96)), HeaderStatus::Ready);
    queue.target_best_header_response(&id(100));

    // then the #100 and all ancestors of #100 (#96..#99) are treated as synced
    assert_eq!(queue.headers_in_status(HeaderStatus::MaybeOrphan), 0);
    assert_eq!(queue.headers_in_status(HeaderStatus::Orphan), 0);
    assert_eq!(queue.headers_in_status(HeaderStatus::MaybeExtra), 0);
    assert_eq!(queue.headers_in_status(HeaderStatus::Extra), 0);
    assert_eq!(queue.headers_in_status(HeaderStatus::Ready), 0);
    assert_eq!(queue.total_headers(), 0);
    for number in 96..=100 {
        assert_eq!(queue.status(&id(number)), HeaderStatus::Synced);
    }
    assert_eq!(queue.best_synced_number(), 100);
}

#[test]
fn descendants_are_moved_on_substrate_best_header_response() {
    // let's say someone else has submitted transaction to bridge that changes
    // its best block to #100. At this time we have:
    // #101 in Orphan
    // #102 in Orphan
    // #103 in Orphan
    let mut queue = queue();
    queue.header_response(header(101));
    queue.header_response(header(102));
    queue.header_response(header(103));
    queue.maybe_orphan_response(&id(100), false);
    assert_eq!(queue.headers_in_status(HeaderStatus::Orphan), 3);
    queue.target_best_header_response(&id(100));

    // all descendants are moved to MaybeExtra
    assert_eq!(queue.headers_in_status(HeaderStatus::MaybeOrphan), 0);
    assert_eq!(queue.headers_in_status(HeaderStatus::Orphan), 0);
    assert_eq!(queue.headers_in_status(HeaderStatus::MaybeExtra), 3);
    assert_eq!(queue.status(&id(101)), HeaderStatus::MaybeExtra);
    assert_eq!(queue.status(&id(102)), HeaderStatus::MaybeExtra);
    assert_eq!(queue.status(&id(103)), HeaderStatus::MaybeExtra);
}

#[test]
fn positive_maybe_orphan_response_works() {
    // let's say we have:
    // #100 in MaybeOrphan
    // #101 in Orphan
    // #102 in Orphan
    // and we have asked for MaybeOrphan status of #100.parent (i.e. #99)
    // and the response is: YES, #99 is known to the Substrate runtime
    let mut queue = queue();
    queue.header_response(header(101));
    queue.header_response(header(102));
    queue.maybe_orphan_response(&id(100), false);
    queue.header_response(header(100));
    assert_eq!(queue.status(&id(100)), HeaderStatus::MaybeOrphan);
    assert_eq!(queue.status(&id(101)), HeaderStatus::Orphan);
    queue.maybe_orphan_response(&id(99), true);

    // then all headers (#100..#102) are moved to the MaybeExtra queue
    assert_eq!(queue.headers_in_status(HeaderStatus::Orphan), 0);
    assert_eq!(queue.headers_in_status(HeaderStatus::MaybeOrphan), 0);
    assert_eq!(queue.headers_in_status(HeaderStatus::MaybeExtra), 3);
    assert_eq!(queue.status(&id(100)), HeaderStatus::MaybeExtra);
    assert_eq!(queue.status(&id(101)), HeaderStatus::MaybeExtra);
    assert_eq!(queue.status(&id(102)), HeaderStatus::MaybeExtra);
}

#[test]
fn negative_maybe_orphan_response_works() {
    // let's say we have:
    // #100 in MaybeOrphan
    // #101 in MaybeOrphan
    // and we have asked for MaybeOrphan status of #100.parent (i.e. #99)
    // and the response is: NO, #99 is NOT known to the Substrate runtime
    let mut queue = queue();
    queue.header_response(header(100));
    queue.header_response(header(101));
    queue.maybe_orphan_response(&id(99), false);

    // then all headers (#100..#101) are moved to the Orphan queue
    assert_eq!(queue.headers_in_status(HeaderStatus::MaybeOrphan), 0);
    assert_eq!(queue.headers_in_status(HeaderStatus::Orphan), 2);
    assert_eq!(queue.status(&id(100)), HeaderStatus::Orphan);
    assert_eq!(queue.status(&id(101)), HeaderStatus::Orphan);
}

#[test]
fn positive_maybe_extra_response_works() {
    let mut queue = queue();
    maybe_extra(&mut queue, 100);
    queue.maybe_extra_response(&id(100), true);
    assert_eq!(queue.headers_in_status(HeaderStatus::MaybeExtra), 0);
    assert_eq!(queue.headers_in_status(HeaderStatus::Extra), 1);
    assert_eq!(queue.status(&id(100)), HeaderStatus::Extra);
}

#[test]
fn negative_maybe_extra_response_works() {
    // when parent header is complete
    let mut queue = queue();
    maybe_extra(&mut queue, 100);
    queue.maybe_extra_response(&id(100), false);
    assert_eq!(queue.headers_in_status(HeaderStatus::MaybeExtra), 0);
    assert_eq!(queue.headers_in_status(HeaderStatus::Ready), 1);
    assert_eq!(queue.status(&id(100)), HeaderStatus::Ready);

    // when parent header is incomplete
    queue.add_incomplete_headers(true, vec![id(200)]);
    maybe_extra(&mut queue, 201);
    queue.maybe_extra_response(&id(201), false);
    assert_eq!(queue.headers_in_status(HeaderStatus::MaybeExtra), 0);
    assert_eq!(queue.headers_in_status(HeaderStatus::Incomplete), 1);
    assert_eq!(queue.status(&id(201)), HeaderStatus::Incomplete);
}

#[test]
fn receipts_response_works() {
    // when parent header is complete
    let mut queue = queue();
    extra(&mut queue, 100);
    queue.extra_response(&id(100), 100_100);
    assert_eq!(queue.headers_in_status(HeaderStatus::Extra), 0);
    assert_eq!(queue.headers_in_status(HeaderStatus::Ready), 1);
    assert_eq!(queue.status(&id(100)), HeaderStatus::Ready);
    assert_eq!(queue.header(HeaderStatus::Ready).unwrap().extra(), &Some(100_100));

    // when parent header is incomplete
    queue.add_incomplete_headers(true, vec![id(200)]);
    extra(&mut queue, 201);
    queue.extra_response(&id(201), 201_201);
    assert_eq!(queue.headers_in_status(HeaderStatus::Extra), 0);
    assert_eq!(queue.headers_in_status(HeaderStatus::Incomplete), 1);
    assert_eq!(queue.status(&id(201)), HeaderStatus::Incomplete);
}

#[test]
fn header_submitted_works() {
    let mut queue = queue();
    ready(&mut queue, 100);
    queue.headers_submitted(vec![id(100)]);
    assert_eq!(queue.headers_in_status(HeaderStatus::Ready), 0);
    assert_eq!(queue.status(&id(100)), HeaderStatus::Submitted);
}

#[test]
fn incomplete_header_works() {
    let mut queue = queue();

    // nothing to complete if queue is empty
    assert_eq!(queue.incomplete_header(0), None);

    // when there's new header to complete => ask for completion data
    queue.add_incomplete_headers(true, vec![id(100)]);
    assert_eq!(queue.incomplete_header(0), Some(id(100)));

    // we have just asked for completion data => nothing to request
    assert_eq!(queue.incomplete_header(0), None);

    // enough time have passed => ask again
    assert_eq!(
        queue.incomplete_header(RETRY_FETCH_COMPLETION_INTERVAL + RETRY_FETCH_COMPLETION_INTERVAL),
        Some(id(100))
    );
}

#[test]
fn completion_response_works() {
    let mut queue = queue();
    queue.add_incomplete_headers(true, vec![id(200), id(300), id(100)]);
    assert_eq!(queue.incomplete_header(0), Some(id(200)));
    assert_eq!(queue.incomplete_header(0), Some(id(300)));
    assert_eq!(queue.incomplete_header_ids(), vec![id(100), id(200), id(300)]);

    // when header isn't incompete, nothing changes
    queue.completion_response(&id(400), None, 0);
    assert_eq!(queue.incomplete_header_ids().len(), 3);
    assert_eq!(queue.completion_header_ids().len(), 0);
    assert_eq!(queue.header_to_complete(), None);

    // when response is None, nothing changes
    queue.completion_response(&id(100), None, 0);
    assert_eq!(queue.incomplete_header_ids().len(), 3);
    assert_eq!(queue.completion_header_ids().len(), 0);
    assert_eq!(queue.header_to_complete(), None);

    // when response is Some, we're scheduling completion
    queue.completion_response(&id(200), Some(vec![2, 0, 0]), 0);
    assert_eq!(queue.completion_header_ids(), vec![id(200)]);
    assert_eq!(queue.header_to_complete(), Some((id(200), vec![2, 0, 0])));
    assert_eq!(queue.incomplete_header_ids(), vec![id(100), id(300), id(200)]);
}

#[test]
fn header_completed_works() {
    let mut queue = queue();
    queue.add_incomplete_headers(true, vec![id(100)]);
    queue.completion_response(&id(100), Some(vec![1, 0, 0]), 0);
    assert_eq!(queue.completion_header_ids().len(), 1);

    // when unknown header is completed
    queue.header_completed(&id(200));
    assert_eq!(queue.completion_header_ids().len(), 1);

    // when known header is completed
    queue.header_completed(&id(100));
    assert_eq!(queue.completion_header_ids().len(), 0);
}

#[test]
fn incomplete_headers_response_works() {
    let mut queue = queue();

    // when we have already submitted #101 and #102 is ready
    submitted(&mut queue, 101);
    queue.header_response(header(102));
    queue.maybe_extra_response(&id(102), false);
    assert_eq!(queue.status(&id(101)), HeaderStatus::Submitted);
    assert_eq!(queue.status(&id(102)), HeaderStatus::Ready);

    // AND now we know that the #100 is incomplete
    queue.incomplete_headers_response(vec![id(100)]);

    // => #101 and #102 are moved to the Incomplete and #100 is now synced
    assert_eq!(queue.status(&id(100)), HeaderStatus::Synced);
    assert_eq!(queue.status(&id(101)), HeaderStatus::Incomplete);
    assert_eq!(queue.status(&id(102)), HeaderStatus::Incomplete);
    assert_eq!(queue.headers_in_status(HeaderStatus::Submitted), 0);
    assert_eq!(queue.headers_in_status(HeaderStatus::Ready), 0);
    assert_eq!(queue.headers_in_status(HeaderStatus::Incomplete), 2);
    assert!(queue.requires_completion_data(&id(100)));
    assert!(queue.completion_header_ids().is_empty());

    // and then header #100 is no longer incomplete
    queue.incomplete_headers_response(vec![]);

    // => #101 and #102 are moved to the Ready queue and #100 if now forgotten
    assert_eq!(queue.status(&id(100)), HeaderStatus::Synced);
    assert_eq!(queue.status(&id(101)), HeaderStatus::Ready);
    assert_eq!(queue.status(&id(102)), HeaderStatus::Ready);
    assert_eq!(queue.headers_in_status(HeaderStatus::Incomplete), 0);
    assert_eq!(queue.headers_in_status(HeaderStatus::Submitted), 0);
    assert_eq!(queue.headers_in_status(HeaderStatus::Ready), 2);
    assert!(queue.incomplete_header_ids().is_empty());
    assert!(queue.completion_header_ids().is_empty());
}

#[test]
fn is_parent_incomplete_works() {
    let mut queue = queue();

    // when we do not know header itself
    assert_eq!(queue.is_parent_incomplete(&id(50)), false);

    // when we do not know parent
    maybe_extra(&mut queue, 100);
    assert_eq!(queue.is_parent_incomplete(&id(100)), false);

    // when parent is inside incomplete queue (i.e. some other ancestor is actually incomplete)
    incomplete(&mut queue, 150);
    queue.header_response(header(151));
    assert_eq!(queue.is_parent_incomplete(&id(151)), true);

    // when parent is the incomplete header and we do not have completion data
    submitted(&mut queue, 200);
    queue.add_incomplete_headers(true, vec![id(199)]);
    assert_eq!(queue.is_parent_incomplete(&id(200)), true);

    // when parent is the incomplete header and we have completion data
    queue.add_incomplete_headers(true, vec![id(299)]);
    queue.completion_response(&id(299), Some(vec![2, 9, 9]), 0);
    maybe_extra(&mut queue, 300);
    assert_eq!(queue.is_parent_incomplete(&id(300)), true);
}

#[test]
fn prune_works() {
    let mut queue = queue();
    ready(&mut queue, 100);
    queue.header_response(header(101));
    queue.maybe_extra_response(&id(101), true);
    queue.header_response(header(102));
    queue.header_response(header_on_fork(103));
    queue.maybe_orphan_response(&fork_parent(103), false);
    queue.header_response(header_on_fork(104));
    queue.add_incomplete_headers(true, vec![fork_parent(105)]);
    queue.header_response(header_on_fork(105));
    queue.maybe_orphan_response(&fork_parent(105), true);
    queue.maybe_extra_response(&id(105), false);
    assert_eq!(queue.status(&id(100)), HeaderStatus::Ready);
    assert_eq!(queue.status(&id(101)), HeaderStatus::Extra);
    assert_eq!(queue.status(&id(102)), HeaderStatus::MaybeExtra);
    assert_eq!(queue.status(&id(103)), HeaderStatus::Orphan);
    assert_eq!(queue.status(&id(104)), HeaderStatus::MaybeOrphan);
    assert_eq!(queue.status(&id(105)), HeaderStatus::Incomplete);

    queue.prune(102);

    assert_eq!(queue.prune_border(), 102);
    assert_eq!(queue.headers_in_status(HeaderStatus::Ready), 0);
    assert_eq!(queue.headers_in_status(HeaderStatus::Extra), 0);
    assert_eq!(queue.headers_in_status(HeaderStatus::MaybeExtra), 1);
    assert_eq!(queue.headers_in_status(HeaderStatus::Orphan), 1);
    assert_eq!(queue.headers_in_status(HeaderStatus::MaybeOrphan), 1);
    assert_eq!(queue.headers_in_status(HeaderStatus::Incomplete), 1);
    assert_eq!(queue.total_headers(), 4);

    queue.prune(110);

    assert_eq!(queue.headers_in_status(HeaderStatus::Ready), 0);
    assert_eq!(queue.headers_in_status(HeaderStatus::Extra), 0);
    assert_eq!(queue.headers_in_status(HeaderStatus::MaybeExtra), 0);
    assert_eq!(queue.headers_in_status(HeaderStatus::Orphan), 0);
    assert_eq!(queue.headers_in_status(HeaderStatus::MaybeOrphan), 0);
    assert_eq!(queue.headers_in_status(HeaderStatus::Incomplete), 0);
    assert_eq!(queue.total_headers(), 0);

    queue.header_response(header(109));
    assert_eq!(queue.total_headers(), 0);
    assert_eq!(queue.status(&id(109)), HeaderStatus::Unknown);

    queue.header_response(header(110));
    assert_eq!(queue.total_headers(), 1);
}

#[test]
fn incomplete_headers_are_still_incomplete_after_advance() {
    let mut queue = queue();

    // relay#1 knows that header#100 is incomplete && it has headers 101..104 in incomplete queue
    queue.target_best_header_response(&id(100));
    queue.add_incomplete_headers(true, vec![id(100)]);
    for number in 101..=104 {
        queue.header_response(header(number));
        queue.maybe_extra_response(&id(number), false);
    }
    assert_eq!(queue.status(&id(100)), HeaderStatus::Synced);
    for number in 101..=104 {
        assert_eq!(queue.status(&id(number)), HeaderStatus::Incomplete);
    }

    // let's say relay#2 completes header#100 and then submits header#101+header#102 and it turns
    // out that header#102 is also incomplete
    queue.incomplete_headers_response(vec![id(102)]);

    // then the header#103 and the header#104 must have Incomplete status
    assert_eq!(queue.status(&id(101)), HeaderStatus::Synced);
    assert_eq!(queue.status(&id(102)), HeaderStatus::Synced);
    assert_eq!(queue.status(&id(103)), HeaderStatus::Incomplete);
    assert_eq!(queue.status(&id(104)), HeaderStatus::Incomplete);
}

#[test]
fn incomplete_headers_response_moves_synced_headers() {
    let mut queue = queue();

    // we have submitted two headers - 100 and 101. 102 is ready
    submitted(&mut queue, 100);
    queue.header_response(header(101));
    queue.maybe_extra_response(&id(101), false);
    queue.headers_submitted(vec![id(101)]);
    queue.header_response(header(102));
    queue.maybe_extra_response(&id(102), false);
    assert_eq!(queue.status(&id(100)), HeaderStatus::Submitted);
    assert_eq!(queue.status(&id(101)), HeaderStatus::Submitted);
    assert_eq!(queue.status(&id(102)), HeaderStatus::Ready);

    // both headers are accepted
    queue.target_best_header_response(&id(101));

    // but header 100 is incomplete
    queue.incomplete_headers_response(vec![id(100)]);
    assert_eq!(queue.status(&id(100)), HeaderStatus::Synced);
    assert_eq!(queue.status(&id(101)), HeaderStatus::Synced);
    assert_eq!(queue.status(&id(102)), HeaderStatus::Incomplete);
    assert!(queue.requires_completion_data(&id(100)));

    // when header 100 is completed, 101 is synced and 102 is ready
    queue.incomplete_headers_response(vec![]);
    assert_eq!(queue.status(&id(100)), HeaderStatus::Synced);
    assert_eq!(queue.status(&id(101)), HeaderStatus::Synced);
    assert_eq!(queue.status(&id(102)), HeaderStatus::Ready);
}

#[test]
fn submitted_headers_count_in_total() {
    let mut queue = queue();
    submitted(&mut queue, 100);
    ready(&mut queue, 200);
    assert_eq!(queue.total_headers(), 2);
    assert_eq!(queue.best_queued_number(), 200);
}

#[test]
fn clear_forgets_queued_and_synced_headers() {
    let mut queue = queue();
    queue.target_best_header_response(&id(50));
    ready(&mut queue, 100);
    queue.clear();
    assert_eq!(queue.total_headers(), 0);
    assert_eq!(queue.status(&id(100)), HeaderStatus::Unknown);
    assert_eq!(queue.status(&id(50)), HeaderStatus::Unknown);
    assert_eq!(queue.best_synced_number(), 0);
    assert_eq!(queue.prune_border(), 0);
}
