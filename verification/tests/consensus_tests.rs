use consensus_core::block::{Block, ProverSolution, Transaction};
use consensus_core::committee::{CommitteeSource, MIN_STAKE};
use consensus_core::consensus::{Consensus, EngineOutcome, MAX_GC_ROUNDS};
use consensus_core::errors::{CommitteeError, ConsensusError, LedgerError};
use consensus_core::ledger::Ledger;

fn ledger() -> Ledger {
    Ledger::new(0, 0, 0, 10, 100)
}

fn running_consensus(l: Ledger) -> Consensus {
    let mut c = Consensus::new(77, l, CommitteeSource::RandomBootstrap).unwrap();
    c.run(1, 1).unwrap();
    c
}

fn submit_transactions(c: &mut Consensus, ids: &[u64]) {
    for &id in ids {
        c.add_unconfirmed_transaction(Transaction { id }, EngineOutcome::Accepted).unwrap();
    }
}

fn submit_solutions(c: &mut Consensus, entries: &[(u64, u64)]) {
    for &(commitment, target) in entries {
        c.add_unconfirmed_solution(ProverSolution { commitment, target }, EngineOutcome::Accepted)
            .unwrap();
    }
}

#[test]
fn new_binds_committee_one_round_ahead() {
    let c = Consensus::new(77, Ledger::new(0, 9, 0, 10, 100), CommitteeSource::RandomBootstrap)
        .unwrap();
    assert_eq!(c.bft().committee.starting_round(), 10);
    assert_eq!(c.bft().account, 77);
    assert_eq!(c.bft().gc_rounds, MAX_GC_ROUNDS);
    assert!(!c.bft().running);
    assert_eq!(c.memory_pool().num_unconfirmed_transactions(), 0);
    assert!(c.primary_sender().is_err());
}

#[test]
fn new_surfaces_committee_failure() {
    let source = CommitteeSource::DiscoveredBootstrap(vec![(1, MIN_STAKE - 1)]);
    let r = Consensus::new(77, ledger(), source);
    assert_eq!(
        r.err(),
        Some(ConsensusError::Initialization(CommitteeError::StakeBelowMinimum))
    );
}

#[test]
fn new_accepts_discovered_members() {
    let source = CommitteeSource::DiscoveredBootstrap(vec![(1, MIN_STAKE), (2, MIN_STAKE)]);
    let c = Consensus::new(77, ledger(), source).unwrap();
    assert_eq!(c.bft().committee.num_members(), 2);
}

#[test]
fn run_binds_sender_once() {
    let mut c = Consensus::new(77, ledger(), CommitteeSource::RandomBootstrap).unwrap();
    assert_eq!(c.primary_sender(), Err(ConsensusError::SenderUnset));
    c.run(5, 1).unwrap();
    assert_eq!(c.primary_sender(), Ok(5));
    assert!(c.bft().running);
    assert_eq!(c.run(6, 2), Err(ConsensusError::SenderAlreadySet));
    assert_eq!(c.primary_sender(), Ok(5));
}

#[test]
fn submission_before_run_is_a_fault_and_succeeds_after() {
    let mut c = Consensus::new(77, ledger(), CommitteeSource::RandomBootstrap).unwrap();
    let r = c.add_unconfirmed_transaction(Transaction { id: 1 }, EngineOutcome::Accepted);
    assert_eq!(r, Err(ConsensusError::SenderUnset));
    assert_eq!(c.num_unconfirmed_transmissions(), 0);
    c.run(1, 1).unwrap();
    let r = c.add_unconfirmed_transaction(Transaction { id: 1 }, EngineOutcome::Accepted);
    assert_eq!(r, Ok(()));
    assert_eq!(c.num_unconfirmed_transmissions(), 1);
}

#[test]
fn rejected_and_closed_submissions_change_nothing() {
    let mut c = running_consensus(ledger());
    let r = c.add_unconfirmed_transaction(Transaction { id: 1 }, EngineOutcome::Rejected);
    assert_eq!(r, Err(ConsensusError::EngineRejected));
    let r = c.add_unconfirmed_solution(
        ProverSolution { commitment: 2, target: 50 },
        EngineOutcome::ChannelClosed,
    );
    assert_eq!(r, Err(ConsensusError::ChannelClosed));
    assert_eq!(c.num_unconfirmed_transmissions(), 0);
}

#[test]
fn unconfirmed_transmissions_list_ids_in_order() {
    let mut c = running_consensus(ledger());
    submit_transactions(&mut c, &[3, 1]);
    submit_solutions(&mut c, &[(9, 50)]);
    assert_eq!(c.unconfirmed_transmissions(), vec![3, 1, 9]);
    assert_eq!(c.num_unconfirmed_transmissions(), 3);
}

#[test]
fn coinbase_target_verdict_follows_pool_and_ledger() {
    let mut c = running_consensus(ledger());
    submit_solutions(&mut c, &[(1, 50), (2, 100)]);
    assert!(c.is_coinbase_target_met());
    assert!(c.is_coinbase_target_met());
    let mut c2 = running_consensus(Ledger::new(0, 0, 0, 10, 200));
    submit_solutions(&mut c2, &[(1, 50), (2, 100)]);
    assert!(!c2.is_coinbase_target_met());
}

#[test]
fn candidate_transactions_return_in_submission_order_and_empty_after_acceptance() {
    let mut c = running_consensus(ledger());
    submit_transactions(&mut c, &[11, 12, 13]);
    let picked = c.memory_pool().candidate_transactions(c.ledger());
    assert_eq!(picked, vec![11, 12, 13]);
    let b = c.propose_next_block().unwrap();
    assert_eq!(b.transaction_ids, vec![11, 12, 13]);
    c.advance_to_next_block(&b).unwrap();
    let picked = c.memory_pool().candidate_transactions(c.ledger());
    assert_eq!(picked.len(), 0);
    assert_eq!(c.memory_pool().num_unconfirmed_transactions(), 0);
}

#[test]
fn propose_next_block_carries_pool_and_head_state() {
    let mut c = running_consensus(Ledger::new(4, 9, 2, 10, 100));
    submit_transactions(&mut c, &[21]);
    submit_solutions(&mut c, &[(31, 40)]);
    let b = c.propose_next_block().unwrap();
    assert_eq!(b.height, 5);
    assert_eq!(b.round, 10);
    assert_eq!(b.epoch_number, 2);
    assert_eq!(b.proof_target, 10);
    assert_eq!(b.coinbase_target, 100);
    assert_eq!(b.transaction_ids, vec![21]);
    assert_eq!(b.solutions, vec![(31, 40)]);
    assert_eq!(c.memory_pool().num_unconfirmed_transactions(), 1);
}

#[test]
fn propose_next_block_needs_candidate_work() {
    let c = running_consensus(ledger());
    assert_eq!(c.propose_next_block().err(), Some(ConsensusError::EmptyProposal));
}

#[test]
fn propose_next_block_reports_exhausted_counters() {
    let c = running_consensus(Ledger::new(u32::MAX, 0, 0, 10, 100));
    assert_eq!(c.propose_next_block().err(), Some(ConsensusError::HeightExhausted));
    let c = running_consensus(Ledger::new(0, u64::MAX - 1, 0, 10, 100));
    let mut c = c;
    submit_transactions(&mut c, &[1]);
    let mut l = ledger();
    l.round = u64::MAX;
    let c2 = Consensus {
        ledger: l,
        ..c
    };
    assert_eq!(c2.propose_next_block().err(), Some(ConsensusError::RoundExhausted));
}

#[test]
fn failed_advance_leaves_everything_unchanged() {
    let mut c = running_consensus(ledger());
    submit_transactions(&mut c, &[1, 2]);
    submit_solutions(&mut c, &[(3, 50)]);
    let before_txs = c.unconfirmed_transmissions();
    let bad = Block {
        height: 9,
        round: 1,
        epoch_number: 0,
        proof_target: 10,
        coinbase_target: 100,
        transaction_ids: vec![],
        solutions: vec![],
    };
    let r = c.advance_to_next_block(&bad);
    assert_eq!(r, Err(ConsensusError::Ledger(LedgerError::InvalidHeight)));
    assert_eq!(c.unconfirmed_transmissions(), before_txs);
    assert_eq!(c.ledger().latest_height(), 0);
}

#[test]
fn epoch_rollover_clears_all_solutions() {
    let mut c = running_consensus(ledger());
    submit_solutions(&mut c, &[(1, 50), (2, 5)]);
    submit_transactions(&mut c, &[9]);
    let b = Block {
        height: 1,
        round: 1,
        epoch_number: 1,
        proof_target: 10,
        coinbase_target: 100,
        transaction_ids: vec![],
        solutions: vec![],
    };
    c.advance_to_next_block(&b).unwrap();
    assert_eq!(c.memory_pool().num_unconfirmed_solutions(), 0);
    assert_eq!(c.memory_pool().num_unconfirmed_transactions(), 1);
}

#[test]
fn coinbase_block_in_same_epoch_prunes_only_invalid_solutions() {
    let mut c = running_consensus(ledger());
    submit_solutions(&mut c, &[(1, 50), (2, 5), (3, 60)]);
    let b = Block {
        height: 1,
        round: 1,
        epoch_number: 0,
        proof_target: 10,
        coinbase_target: 100,
        transaction_ids: vec![],
        solutions: vec![(1, 50)],
    };
    c.advance_to_next_block(&b).unwrap();
    assert_eq!(c.memory_pool().unconfirmed_solution_entries(), vec![(3, 60)]);
}

#[test]
fn plain_block_prunes_no_solutions() {
    let mut c = running_consensus(ledger());
    submit_solutions(&mut c, &[(1, 50), (2, 5)]);
    submit_transactions(&mut c, &[9]);
    let b = Block {
        height: 1,
        round: 1,
        epoch_number: 0,
        proof_target: 10,
        coinbase_target: 100,
        transaction_ids: vec![9],
        solutions: vec![],
    };
    c.advance_to_next_block(&b).unwrap();
    assert_eq!(c.memory_pool().unconfirmed_solution_entries(), vec![(1, 50), (2, 5)]);
    assert_eq!(c.memory_pool().num_unconfirmed_transactions(), 0);
}

#[test]
fn advance_prunes_transactions_finalized_by_the_block() {
    let mut c = running_consensus(ledger());
    submit_transactions(&mut c, &[1, 2, 3]);
    let b = Block {
        height: 1,
        round: 1,
        epoch_number: 0,
        proof_target: 10,
        coinbase_target: 100,
        transaction_ids: vec![2],
        solutions: vec![],
    };
    c.advance_to_next_block(&b).unwrap();
    assert_eq!(c.memory_pool().unconfirmed_transaction_ids(), vec![1, 3]);
}

#[test]
fn shut_down_stops_engine_and_drops_tasks() {
    let mut c = running_consensus(ledger());
    c.spawn(42);
    assert!(c.bft().running);
    assert_eq!(c.handles.len(), 2);
    c.shut_down();
    assert!(!c.bft().running);
    assert_eq!(c.handles.len(), 0);
    assert_eq!(c.primary_sender(), Ok(1));
}
