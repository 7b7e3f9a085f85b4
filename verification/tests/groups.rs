use bridge_relays::groups::{compute_targets, make_group_info, AuthorityId, Chain, DutyRoster, GroupError};

fn key(byte: u8) -> AuthorityId {
    AuthorityId([byte; 32])
}

fn sorted(mut ids: Vec<AuthorityId>) -> Vec<AuthorityId> {
    ids.sort_by_key(|id| id.0);
    ids
}

#[test]
fn groups_follow_duty_roster() {
    let roster = DutyRoster {
        validator_duty: vec![Chain::Parachain(1), Chain::Parachain(1), Chain::Relay],
        guarantor_duty: vec![Chain::Parachain(2), Chain::Parachain(1), Chain::Parachain(1)],
    };
    let (groups, duty) = make_group_info(roster, &[key(1), key(2), key(3)], key(2)).unwrap();
    assert_eq!(duty.validation, Chain::Parachain(1));
    assert_eq!(groups.len(), 2);

    let first = &groups[&1];
    assert_eq!(sorted(first.validity_guarantors.clone()), vec![key(1), key(2)]);
    assert_eq!(sorted(first.availability_guarantors.clone()), vec![key(2), key(3)]);
    assert_eq!(first.needed_validity, 1);
    assert_eq!(first.needed_availability, 1);

    let second = &groups[&2];
    assert!(second.validity_guarantors.is_empty());
    assert_eq!(second.availability_guarantors, vec![key(1)]);
    assert_eq!(second.needed_validity, 0);
    assert_eq!(second.needed_availability, 1);
}

#[test]
fn needed_votes_are_majority() {
    let roster = DutyRoster { validator_duty: vec![Chain::Parachain(7); 5], guarantor_duty: vec![Chain::Relay; 5] };
    let authorities = [key(1), key(2), key(3), key(4), key(5)];
    let (groups, duty) = make_group_info(roster, &authorities, key(5)).unwrap();
    assert_eq!(duty.validation, Chain::Parachain(7));
    assert_eq!(groups[&7].validity_guarantors.len(), 5);
    assert_eq!(groups[&7].needed_validity, 3);
    assert_eq!(groups[&7].needed_availability, 0);
}

#[test]
fn repeated_authority_counts_once_and_last_duty_is_local() {
    let roster = DutyRoster {
        validator_duty: vec![Chain::Parachain(1), Chain::Parachain(1), Chain::Parachain(2)],
        guarantor_duty: vec![Chain::Relay, Chain::Relay, Chain::Relay],
    };
    let (groups, duty) = make_group_info(roster, &[key(1), key(2), key(1)], key(1)).unwrap();
    assert_eq!(duty.validation, Chain::Parachain(2));
    assert_eq!(sorted(groups[&1].validity_guarantors.clone()), vec![key(1), key(2)]);
    assert_eq!(groups[&1].needed_validity, 1);
    assert_eq!(groups[&2].validity_guarantors, vec![key(1)]);
}

#[test]
fn roster_of_wrong_length_is_rejected() {
    let roster = DutyRoster { validator_duty: vec![Chain::Relay], guarantor_duty: vec![Chain::Relay; 2] };
    assert_eq!(
        make_group_info(roster, &[key(1), key(2)], key(1)).unwrap_err(),
        GroupError::InvalidDutyRosterLength(2, 1),
    );
    let roster = DutyRoster { validator_duty: vec![Chain::Relay; 2], guarantor_duty: vec![Chain::Relay; 3] };
    assert_eq!(
        make_group_info(roster, &[key(1), key(2)], key(1)).unwrap_err(),
        GroupError::InvalidDutyRosterLength(2, 3),
    );
}

#[test]
fn non_validator_is_rejected() {
    let roster = DutyRoster { validator_duty: vec![Chain::Relay; 2], guarantor_duty: vec![Chain::Relay; 2] };
    assert_eq!(make_group_info(roster, &[key(1), key(2)], key(9)).unwrap_err(), GroupError::NotValidator(key(9)));
}

#[test]
fn collation_targets_are_parachain_validators() {
    let roster = DutyRoster {
        validator_duty: vec![
            Chain::Parachain(3),
            Chain::Relay,
            Chain::Parachain(3),
            Chain::Parachain(4),
            Chain::Parachain(3),
        ],
        guarantor_duty: vec![],
    };
    // the last duty has no session key
    let targets = compute_targets(3, &[key(1), key(2), key(1), key(4)], roster);
    assert_eq!(targets, vec![key(1)]);

    let roster = DutyRoster { validator_duty: vec![Chain::Parachain(3), Chain::Parachain(3)], guarantor_duty: vec![] };
    assert_eq!(sorted(compute_targets(3, &[key(2), key(1)], roster)), vec![key(1), key(2)]);
}
