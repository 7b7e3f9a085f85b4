use std::collections::VecDeque;

use bridge_relays::maintain::{remove_obsolete, select_justification};
use bridge_relays::sync::{sync_params, EncodedSize, HeadersSync};
use bridge_relays::sync_types::QueuedHeader;
use bridge_relays::utils::HeaderId;

#[derive(Default, Debug, Clone, PartialEq)]
pub struct TestHeader {
    pub hash: u64,
    pub number: u64,
    pub parent_hash: u64,
}

impl EncodedSize for TestHeader {
    fn spec_encoded_size(&self) -> usize {
        0
    }

    fn encoded_size(&self) -> usize {
        0
    }
}

fn header_hash(index: u64) -> u64 {
    index
}

fn header(index: u64) -> QueuedHeader<TestHeader, ()> {
    QueuedHeader::new(
        HeaderId(index, header_hash(index)),
        header_hash(index - 1),
        TestHeader { number: index, hash: header_hash(index), parent_hash: header_hash(index - 1) },
    )
}

fn justifications() -> VecDeque<(HeaderId, Vec<u8>)> {
    vec![
        (HeaderId(1, header_hash(1)), vec![1]),
        (HeaderId(2, header_hash(2)), vec![2]),
        (HeaderId(3, header_hash(3)), vec![3]),
    ]
    .into_iter()
    .collect()
}

#[test]
fn obsolete_justifications_are_removed() {
    let mut queue = justifications();

    remove_obsolete(&mut queue, HeaderId(2, header_hash(2)));

    assert_eq!(queue, vec![(HeaderId(3, header_hash(3)), vec![3])].into_iter().collect::<VecDeque<_>>(),);
}

#[test]
fn latest_justification_is_selected() {
    let mut queue = justifications();
    let mut sync = HeadersSync::<TestHeader, ()>::new(sync_params());
    sync.headers_mut().header_response(header(1));
    sync.headers_mut().header_response(header(2));
    sync.headers_mut().header_response(header(3));
    sync.target_best_header_response(HeaderId(2, header_hash(2)));

    assert_eq!(select_justification(&mut queue, &mut sync, 0), Some((HeaderId(2, header_hash(2)), vec![2])),);
    assert_eq!(queue, vec![(HeaderId(3, header_hash(3)), vec![3])].into_iter().collect::<VecDeque<_>>(),);
}

#[test]
fn required_justification_is_reported() {
    let mut queue = justifications();
    let mut sync = HeadersSync::<TestHeader, ()>::new(sync_params());
    sync.headers_mut().header_response(header(1));
    sync.headers_mut().header_response(header(2));
    sync.headers_mut().header_response(header(3));
    sync.headers_mut().incomplete_headers_response(vec![HeaderId(2, header_hash(2))]);
    sync.target_best_header_response(HeaderId(2, header_hash(2)));

    assert_eq!(sync.headers_mut().header_to_complete(), None,);

    assert_eq!(select_justification(&mut queue, &mut sync, 0), None,);

    assert_eq!(sync.headers_mut().header_to_complete(), Some((HeaderId(2, header_hash(2)), vec![2])),);
}

#[test]
fn nothing_is_removed_when_all_justifications_are_new() {
    let mut queue = justifications();
    remove_obsolete(&mut queue, HeaderId(0, 0));
    assert_eq!(queue, justifications());
    let mut queue = justifications();
    remove_obsolete(&mut queue, HeaderId(5, 5));
    assert!(queue.is_empty());
}
