use consensus_core::committee::{Committee, BOOTSTRAP_COMMITTEE_SIZE, MIN_STAKE};
use consensus_core::errors::CommitteeError;

#[test]
fn new_refuses_empty_member_set() {
    assert_eq!(Committee::new(1, vec![]).err(), Some(CommitteeError::Empty));
}

#[test]
fn new_refuses_duplicate_address() {
    let members = vec![(1, MIN_STAKE), (1, MIN_STAKE)];
    assert_eq!(Committee::new(1, members).err(), Some(CommitteeError::DuplicateMember));
}

#[test]
fn new_refuses_stake_below_minimum() {
    let members = vec![(1, MIN_STAKE), (2, MIN_STAKE - 1)];
    assert_eq!(Committee::new(1, members).err(), Some(CommitteeError::StakeBelowMinimum));
}

#[test]
fn duplicate_is_reported_before_low_stake() {
    let members = vec![(1, MIN_STAKE - 1), (1, MIN_STAKE - 1)];
    assert_eq!(Committee::new(1, members).err(), Some(CommitteeError::DuplicateMember));
}

#[test]
fn new_accepts_valid_member_set() {
    let members = vec![(10, MIN_STAKE), (20, MIN_STAKE + 5), (30, MIN_STAKE)];
    let c = Committee::new(42, members.clone()).unwrap();
    assert_eq!(c.starting_round(), 42);
    assert_eq!(c.num_members(), 3);
    assert_eq!(c.members(), members);
    assert!(c.is_committee_member(20));
    assert!(!c.is_committee_member(40));
    assert_eq!(c.total_stake(), 3 * MIN_STAKE as u128 + 5);
}

#[test]
fn random_bootstrap_stakes_the_minimum() {
    let c = Committee::random_bootstrap(7);
    assert_eq!(c.starting_round(), 7);
    let n = c.num_members();
    assert!(1 <= n && n <= BOOTSTRAP_COMMITTEE_SIZE);
    for (_, stake) in c.members() {
        assert_eq!(stake, MIN_STAKE);
    }
    assert_eq!(c.total_stake(), n as u128 * MIN_STAKE as u128);
}
