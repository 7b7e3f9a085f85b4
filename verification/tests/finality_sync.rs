use bridge_relays::finality::{
    last_transaction_state, need_progress_update, next_tick, prune_recent_finality_proofs,
    select_better_recent_finality_proof, select_header_to_submit, Error, MissingHeaderOutcome, MissingHeadersReader,
    SelectedFinalityProof, SourceHeader, TransactionState,
};
use bridge_relays::relay_loop::RECONNECT_DELAY;
use bridge_relays::utils::{retry_backoff, FailedClient, MaybeConnectionError};

#[derive(Debug, Clone, PartialEq)]
struct TestSourceHeader(bool, u64);

impl SourceHeader for TestSourceHeader {
    fn spec_number(&self) -> u64 {
        self.1
    }

    fn spec_is_mandatory(&self) -> bool {
        self.0
    }

    fn number(&self) -> u64 {
        self.1
    }

    fn is_mandatory(&self) -> bool {
        self.0
    }
}

type TestFinalityProof = u64;

#[derive(Debug, Clone)]
struct TestError(bool);

impl MaybeConnectionError for TestError {
    fn spec_is_connection_error(&self) -> bool {
        self.0
    }

    fn is_connection_error(&self) -> bool {
        self.0
    }
}

fn read_missing(
    best_at_source: u64,
    best_at_target: u64,
    headers: &[(bool, Option<TestFinalityProof>)],
) -> Result<SelectedFinalityProof<TestSourceHeader, TestFinalityProof>, u64> {
    let mut reader = MissingHeadersReader::new(best_at_source, best_at_target);
    while let Some(number) = reader.next_header_number() {
        let (is_mandatory, proof) = headers[(number - best_at_target - 1) as usize];
        match reader.header_read(TestSourceHeader(is_mandatory, number), proof) {
            MissingHeaderOutcome::Continue => {},
            MissingHeaderOutcome::Mandatory(header, proof) => return Ok(SelectedFinalityProof::Mandatory(header, proof)),
            MissingHeaderOutcome::MissingMandatoryFinalityProof(number) => return Err(number),
        }
    }
    Ok(reader.finish())
}

#[test]
fn select_better_recent_finality_proof_works() {
    // if there are no unjustified headers, nothing is changed
    assert_eq!(
        select_better_recent_finality_proof::<TestSourceHeader, TestFinalityProof>(
            &vec![(5, 5)],
            &mut vec![],
            Some((TestSourceHeader(false, 2), 2)),
        ),
        Some((TestSourceHeader(false, 2), 2)),
    );

    // if there are no recent finality proofs, nothing is changed
    assert_eq!(
        select_better_recent_finality_proof::<TestSourceHeader, TestFinalityProof>(
            &vec![],
            &mut vec![TestSourceHeader(false, 5)],
            Some((TestSourceHeader(false, 2), 2)),
        ),
        Some((TestSourceHeader(false, 2), 2)),
    );

    // if there's no intersection between recent finality proofs and unjustified headers, nothing is changed
    let mut unjustified_headers = vec![TestSourceHeader(false, 9), TestSourceHeader(false, 10)];
    assert_eq!(
        select_better_recent_finality_proof::<TestSourceHeader, TestFinalityProof>(
            &vec![(1, 1), (4, 4)],
            &mut unjustified_headers,
            Some((TestSourceHeader(false, 2), 2)),
        ),
        Some((TestSourceHeader(false, 2), 2)),
    );

    // if there's intersection between recent finality proofs and unjustified headers, but there are no
    // proofs in this intersection, nothing is changed
    let mut unjustified_headers = vec![
        TestSourceHeader(false, 8),
        TestSourceHeader(false, 9),
        TestSourceHeader(false, 10),
    ];
    assert_eq!(
        select_better_recent_finality_proof::<TestSourceHeader, TestFinalityProof>(
            &vec![(7, 7), (11, 11)],
            &mut unjustified_headers,
            Some((TestSourceHeader(false, 2), 2)),
        ),
        Some((TestSourceHeader(false, 2), 2)),
    );
    assert_eq!(
        unjustified_headers,
        vec![TestSourceHeader(false, 8), TestSourceHeader(false, 9), TestSourceHeader(false, 10)]
    );

    // if there's intersection between recent finality proofs and unjustified headers and there's
    // a proof in this intersection:
    // - this better (last from intersection) proof is selected;
    // - 'obsolete' unjustified headers are pruned.
    let mut unjustified_headers = vec![
        TestSourceHeader(false, 8),
        TestSourceHeader(false, 9),
        TestSourceHeader(false, 10),
    ];
    assert_eq!(
        select_better_recent_finality_proof::<TestSourceHeader, TestFinalityProof>(
            &vec![(7, 7), (9, 9)],
            &mut unjustified_headers,
            Some((TestSourceHeader(false, 2), 2)),
        ),
        Some((TestSourceHeader(false, 9), 9)),
    );
    assert_eq!(unjustified_headers, vec![TestSourceHeader(false, 8), TestSourceHeader(false, 10)]);
}

#[test]
fn prune_recent_finality_proofs_works() {
    let initial_recent_finality_proofs: Vec<(u64, TestFinalityProof)> = vec![(10, 10), (13, 13), (15, 15), (17, 17), (19, 19)];

    // when there's proof for justified header in the vec
    let mut recent_finality_proofs = initial_recent_finality_proofs.clone();
    prune_recent_finality_proofs(10, &mut recent_finality_proofs, 1024);
    assert_eq!(&initial_recent_finality_proofs[1..], recent_finality_proofs);

    // when there are no proof for justified header in the vec
    let mut recent_finality_proofs = initial_recent_finality_proofs.clone();
    prune_recent_finality_proofs(11, &mut recent_finality_proofs, 1024);
    assert_eq!(&initial_recent_finality_proofs[1..], recent_finality_proofs);

    // when there are too many entries after initial prune && they also need to be pruned
    let mut recent_finality_proofs = initial_recent_finality_proofs.clone();
    prune_recent_finality_proofs(10, &mut recent_finality_proofs, 2);
    assert_eq!(&initial_recent_finality_proofs[3..], recent_finality_proofs);

    // when last entry is pruned
    let mut recent_finality_proofs = initial_recent_finality_proofs.clone();
    prune_recent_finality_proofs(19, &mut recent_finality_proofs, 2);
    assert_eq!(&initial_recent_finality_proofs[5..], recent_finality_proofs);

    // when post-last entry is pruned
    let mut recent_finality_proofs = initial_recent_finality_proofs.clone();
    prune_recent_finality_proofs(20, &mut recent_finality_proofs, 2);
    assert_eq!(&initial_recent_finality_proofs[5..], recent_finality_proofs);
}

#[test]
fn mandatory_header_is_selected_first() {
    let selected = read_missing(5, 1, &[(false, Some(2)), (true, Some(3)), (false, Some(4)), (false, None)]).unwrap();
    match selected {
        SelectedFinalityProof::Mandatory(header, proof) => {
            assert_eq!(header, TestSourceHeader(true, 3));
            assert_eq!(proof, 3);
        },
        _ => panic!("mandatory header is expected"),
    }
}

#[test]
fn missing_mandatory_proof_is_reported() {
    assert_eq!(read_missing(5, 1, &[(false, None), (true, None), (false, Some(4)), (false, None)]).err(), Some(3));
}

#[test]
fn last_regular_proof_is_selected_with_unjustified_headers_after_it() {
    let selected =
        read_missing(6, 1, &[(false, Some(2)), (false, None), (false, Some(4)), (false, None), (false, None)]).unwrap();
    match selected {
        SelectedFinalityProof::Regular(unjustified, header, proof) => {
            assert_eq!(unjustified, vec![TestSourceHeader(false, 5), TestSourceHeader(false, 6)]);
            assert_eq!(header, TestSourceHeader(false, 4));
            assert_eq!(proof, 4);
        },
        _ => panic!("regular header is expected"),
    }
    let selected = read_missing(3, 1, &[(false, None), (false, None)]).unwrap();
    match selected {
        SelectedFinalityProof::NoPersistentProof(unjustified) => {
            assert_eq!(unjustified, vec![TestSourceHeader(false, 2), TestSourceHeader(false, 3)]);
        },
        _ => panic!("no proof is expected"),
    }
    // nothing is missing
    match read_missing(3, 5, &[]).unwrap() {
        SelectedFinalityProof::NoPersistentProof(unjustified) => assert!(unjustified.is_empty()),
        _ => panic!("no proof is expected"),
    }
}

#[test]
fn better_proof_from_the_stream_is_submitted_and_proofs_are_pruned() {
    let selected = read_missing(6, 1, &[(false, Some(2)), (false, None), (false, None), (false, None), (false, None)])
        .unwrap();
    let mut recent: Vec<(u64, TestFinalityProof)> = vec![(1, 1), (4, 40), (5, 50), (8, 80)];
    assert_eq!(select_header_to_submit(selected, &mut recent, 1, 1024), Some((TestSourceHeader(false, 5), 50)));
    assert_eq!(recent, vec![(8, 80)]);

    // mandatory header is submitted as it is, and the recent proofs stay
    let mut recent: Vec<(u64, TestFinalityProof)> = vec![(1, 1), (4, 40)];
    assert_eq!(
        select_header_to_submit(SelectedFinalityProof::Mandatory(TestSourceHeader(true, 3), 3), &mut recent, 1, 1024),
        Some((TestSourceHeader(true, 3), 3))
    );
    assert_eq!(recent, vec![(1, 1), (4, 40)]);

    // nothing is selected: proofs up to the best header at target are pruned
    let mut recent: Vec<(u64, TestFinalityProof)> = vec![(1, 1), (4, 40), (9, 90)];
    assert_eq!(select_header_to_submit(SelectedFinalityProof::<TestSourceHeader, TestFinalityProof>::NoPersistentProof(vec![]), &mut recent, 4, 1024), None);
    assert_eq!(recent, vec![(9, 90)]);
}

#[test]
fn errors_tell_which_client_has_failed() {
    type E = Error<TestError, TestError>;
    assert_eq!(E::Source(TestError(true)).fail_if_connection_error(), Err(FailedClient::Source));
    assert_eq!(E::Source(TestError(false)).fail_if_connection_error(), Ok(()));
    assert_eq!(E::Target(TestError(true)).fail_if_connection_error(), Err(FailedClient::Target));
    assert_eq!(E::Target(TestError(false)).fail_if_connection_error(), Ok(()));
    assert_eq!(E::Stalled.fail_if_connection_error(), Err(FailedClient::Both));
    assert_eq!(E::MissingMandatoryFinalityProof(10).fail_if_connection_error(), Ok(()));

    let mut backoff = retry_backoff();
    assert_eq!(next_tick::<TestError, TestError>(None, &mut backoff, 7), Ok(7));
    assert_eq!(next_tick(Some(&E::Stalled), &mut backoff, 7), Err(FailedClient::Both));
    let delay = next_tick(Some(&E::MissingMandatoryFinalityProof(10)), &mut backoff, 7).unwrap();
    assert!(delay > 0 && delay <= 60_000_000_000);
    assert_eq!(Some(delay), backoff.last_delay());
    assert_eq!(backoff.delays_since_reset(), 1);
    assert_eq!(next_tick::<TestError, TestError>(None, &mut backoff, 7), Ok(7));
    assert_eq!(backoff.delays_since_reset(), 0);
    assert!(RECONNECT_DELAY == 10_000_000_000);
}

#[test]
fn submitted_transaction_state_works() {
    assert_eq!(last_transaction_state(10, 10, 1_000, 100), TransactionState::Mined);
    assert_eq!(last_transaction_state(9, 10, 100, 100), TransactionState::Pending);
    assert_eq!(last_transaction_state(9, 10, 101, 100), TransactionState::Stalled);
}

#[test]
fn finality_progress_is_printed_when_needed() {
    assert!(need_progress_update(0, None, 0));
    assert!(!need_progress_update(10_000_000_000, Some(10), 20));
    assert!(need_progress_update(10_000_000_001, Some(10), 10));
    assert!(need_progress_update(0, Some(10), 21));
    assert!(!need_progress_update(0, Some(30), 21));
}
