use consensus_core::block::{ProverSolution, Transaction};
use consensus_core::ledger::Ledger;
use consensus_core::pool::{MemoryPool, MAX_CANDIDATE_SOLUTIONS, MAX_CANDIDATE_TRANSACTIONS};

fn ledger() -> Ledger {
    Ledger::new(0, 0, 0, 10, 100)
}

fn ledger_with_finalized(tx_ids: Vec<u64>, solution_ids: Vec<u64>) -> Ledger {
    Ledger {
        height: 1,
        round: 1,
        epoch_number: 0,
        proof_target: 10,
        coinbase_target: 100,
        finalized_transaction_ids: tx_ids,
        finalized_solution_ids: solution_ids,
    }
}

#[test]
fn new_pool_is_empty() {
    let p = MemoryPool::new();
    assert_eq!(p.num_unconfirmed_transactions(), 0);
    assert_eq!(p.num_unconfirmed_solutions(), 0);
    assert!(p.candidate_transactions(&ledger()).is_empty());
}

#[test]
fn insert_keeps_submission_order() {
    let mut p = MemoryPool::new();
    for id in [30, 10, 20] {
        p.insert_unconfirmed_transaction(&Transaction { id });
    }
    assert_eq!(p.unconfirmed_transaction_ids(), vec![30, 10, 20]);
    assert!(p.contains_unconfirmed_transaction(10));
    assert!(!p.contains_unconfirmed_transaction(40));
}

#[test]
fn duplicate_transaction_leaves_pool_unchanged() {
    let mut p = MemoryPool::new();
    p.insert_unconfirmed_transaction(&Transaction { id: 1 });
    p.insert_unconfirmed_transaction(&Transaction { id: 2 });
    p.insert_unconfirmed_transaction(&Transaction { id: 1 });
    assert_eq!(p.unconfirmed_transaction_ids(), vec![1, 2]);
}

#[test]
fn duplicate_solution_keeps_place_and_takes_new_target() {
    let mut p = MemoryPool::new();
    p.insert_unconfirmed_solution(&ProverSolution { commitment: 5, target: 11 });
    p.insert_unconfirmed_solution(&ProverSolution { commitment: 6, target: 12 });
    p.insert_unconfirmed_solution(&ProverSolution { commitment: 5, target: 99 });
    assert_eq!(p.unconfirmed_solution_entries(), vec![(5, 99), (6, 12)]);
}

#[test]
fn candidate_transactions_exclude_finalized() {
    let mut p = MemoryPool::new();
    for id in [1, 2, 3] {
        p.insert_unconfirmed_transaction(&Transaction { id });
    }
    let l = ledger_with_finalized(vec![2], vec![]);
    assert_eq!(p.candidate_transactions(&l), vec![1, 3]);
}

#[test]
fn candidate_solutions_respect_threshold_and_order() {
    let mut p = MemoryPool::new();
    p.insert_unconfirmed_solution(&ProverSolution { commitment: 1, target: 9 });
    p.insert_unconfirmed_solution(&ProverSolution { commitment: 2, target: 10 });
    p.insert_unconfirmed_solution(&ProverSolution { commitment: 3, target: 50 });
    let l = ledger();
    let picked = p.candidate_solutions(&l, 0, 10, 1000);
    assert_eq!(picked, vec![(2, 10), (3, 50)]);
}

#[test]
fn candidate_solutions_exclude_finalized() {
    let mut p = MemoryPool::new();
    p.insert_unconfirmed_solution(&ProverSolution { commitment: 1, target: 50 });
    p.insert_unconfirmed_solution(&ProverSolution { commitment: 2, target: 50 });
    let l = ledger_with_finalized(vec![], vec![1]);
    assert_eq!(p.candidate_solutions(&l, 0, 10, 1000), vec![(2, 50)]);
}

#[test]
fn candidate_solutions_stop_once_target_is_reached() {
    let mut p = MemoryPool::new();
    for c in 1..=3u64 {
        p.insert_unconfirmed_solution(&ProverSolution { commitment: c, target: 60 });
    }
    let picked = p.candidate_solutions(&ledger(), 0, 10, 100);
    assert_eq!(picked, vec![(1, 60), (2, 60)]);
}

#[test]
fn candidate_solutions_respect_per_block_limit() {
    let mut p = MemoryPool::new();
    for c in 0..(MAX_CANDIDATE_SOLUTIONS as u64 + 10) {
        p.insert_unconfirmed_solution(&ProverSolution { commitment: c, target: 20 });
    }
    let picked = p.candidate_solutions(&ledger(), 0, 10, u64::MAX);
    assert_eq!(picked.len(), MAX_CANDIDATE_SOLUTIONS);
    assert_eq!(picked[0], (0, 20));
    assert_eq!(picked[MAX_CANDIDATE_SOLUTIONS - 1], (MAX_CANDIDATE_SOLUTIONS as u64 - 1, 20));
}

#[test]
fn cumulative_target_sums_only_at_or_above_threshold() {
    let mut p = MemoryPool::new();
    p.insert_unconfirmed_solution(&ProverSolution { commitment: 1, target: 9 });
    p.insert_unconfirmed_solution(&ProverSolution { commitment: 2, target: 50 });
    p.insert_unconfirmed_solution(&ProverSolution { commitment: 3, target: 100 });
    assert_eq!(p.candidate_coinbase_target(10), 150);
    assert_eq!(p.candidate_coinbase_target(0), 159);
    assert_eq!(p.candidate_coinbase_target(101), 0);
}

#[test]
fn cumulative_target_takes_sums_beyond_one_word() {
    let mut p = MemoryPool::new();
    p.insert_unconfirmed_solution(&ProverSolution { commitment: 1, target: u64::MAX });
    p.insert_unconfirmed_solution(&ProverSolution { commitment: 2, target: u64::MAX });
    assert_eq!(p.candidate_coinbase_target(0), 2 * u64::MAX as u128);
}

#[test]
fn candidate_transactions_respect_per_block_limit() {
    let mut p = MemoryPool::new();
    for id in 0..(MAX_CANDIDATE_TRANSACTIONS as u64 + 10) {
        p.insert_unconfirmed_transaction(&Transaction { id });
    }
    let picked = p.candidate_transactions(&ledger());
    assert_eq!(picked.len(), MAX_CANDIDATE_TRANSACTIONS);
    assert_eq!(picked[MAX_CANDIDATE_TRANSACTIONS - 1], MAX_CANDIDATE_TRANSACTIONS as u64 - 1);
}

#[test]
fn clear_invalid_transactions_keeps_valid_entries() {
    let mut p = MemoryPool::new();
    for id in [1, 2, 3, 4] {
        p.insert_unconfirmed_transaction(&Transaction { id });
    }
    let l = ledger_with_finalized(vec![2, 4], vec![]);
    p.clear_invalid_transactions(&l);
    assert_eq!(p.unconfirmed_transaction_ids(), vec![1, 3]);
}

#[test]
fn clear_invalid_solutions_keeps_valid_entries() {
    let mut p = MemoryPool::new();
    p.insert_unconfirmed_solution(&ProverSolution { commitment: 1, target: 9 });
    p.insert_unconfirmed_solution(&ProverSolution { commitment: 2, target: 50 });
    p.insert_unconfirmed_solution(&ProverSolution { commitment: 3, target: 50 });
    let l = ledger_with_finalized(vec![], vec![3]);
    p.clear_invalid_solutions(&l);
    assert_eq!(p.unconfirmed_solution_entries(), vec![(2, 50)]);
}

#[test]
fn clears_are_safe_on_an_empty_pool() {
    let mut p = MemoryPool::new();
    let l = ledger();
    p.clear_invalid_transactions(&l);
    p.clear_invalid_solutions(&l);
    p.clear_all_unconfirmed_solutions();
    assert_eq!(p.num_unconfirmed_transactions(), 0);
    assert_eq!(p.num_unconfirmed_solutions(), 0);
}

#[test]
fn clear_all_solutions_keeps_transactions() {
    let mut p = MemoryPool::new();
    p.insert_unconfirmed_transaction(&Transaction { id: 1 });
    p.insert_unconfirmed_solution(&ProverSolution { commitment: 2, target: 50 });
    p.clear_all_unconfirmed_solutions();
    assert_eq!(p.num_unconfirmed_solutions(), 0);
    assert_eq!(p.unconfirmed_transaction_ids(), vec![1]);
}
